//! What holds of resolution and of index construction, for all inputs.
use crate::assets::archive_manager::{
    all_indexable, all_open, carries, construction, first_rejected, not_after, present, rejected,
    resolved, source_layers, wins, ArchiveContents, AssetError,
};
use vstd::prelude::*;

verus! {

/// A path that no entry of any layer carries resolves to nothing, and to no error.
pub proof fn lemma_absent_path_resolves_to_nothing(layers: Seq<ArchiveContents>, path: Seq<char>)
    requires
        !present(layers, path),
    ensures
        resolved(layers, path) == Ok::<Option<Seq<u8>>, AssetError>(None),
{
}

/// At most one entry wins a path.
pub proof fn lemma_winner_is_unique(
    layers: Seq<ArchiveContents>,
    path: Seq<char>,
    a1: int,
    e1: int,
    a2: int,
    e2: int,
)
    requires
        wins(layers, a1, e1, path),
        wins(layers, a2, e2, path),
    ensures
        a1 == a2,
        e1 == e2,
{
    assert(not_after(a1, e1, a2, e2));
    assert(not_after(a2, e2, a1, e1));
}

/// Where an earlier and a later layer both carry a path, resolution gives
/// the content of the later one: the payload of the last entry that carries
/// the path, whatever the earlier layers hold under it.
pub proof fn lemma_last_supplied_wins(
    layers: Seq<ArchiveContents>,
    path: Seq<char>,
    earlier: int,
    earlier_entry: int,
    later: int,
    later_entry: int,
)
    requires
        carries(layers, earlier, earlier_entry, path),
        wins(layers, later, later_entry, path),
    ensures
        earlier <= later,
        later_entry < layers[later].payloads.len() && layers[later].payloads[later_entry] is Some
            ==> resolved(layers, path) == Ok::<Option<Seq<u8>>, AssetError>(
            Some(layers[later].payloads[later_entry]->0),
        ),
        !(later_entry < layers[later].payloads.len() && layers[later].payloads[later_entry] is Some)
            ==> resolved(layers, path) == Err::<Option<Seq<u8>>, AssetError>(
            AssetError::CorruptResource,
        ),
{
    assert(not_after(earlier, earlier_entry, later, later_entry));
    assert(present(layers, path));
    let (a, e) = choose|a: int, e: int| wins(layers, a, e, path);
    lemma_winner_is_unique(layers, path, a, e, later, later_entry);
}

/// Construction is all or nothing: one entry without a valid path, in any
/// source, and no index is built.
pub proof fn lemma_rejected_entry_fails_construction(sources: Seq<Vec<u8>>, a: int, e: int)
    requires
        all_open(sources),
        rejected(source_layers(sources), a, e),
    ensures
        construction(sources) is Err,
{
    assert(!all_indexable(source_layers(sources)));
}

/// Where every source opens and the first entry without a valid path is one
/// whose stored name leaves the root or is not text, construction fails with
/// `InvalidEntryPath`.
pub proof fn lemma_invalid_name_fails_construction(sources: Seq<Vec<u8>>, a: int, e: int)
    requires
        all_open(sources),
        first_rejected(source_layers(sources), a, e),
        source_layers(sources)[a].names[e] == Some(None::<Seq<char>>),
    ensures
        construction(sources) == Err::<Seq<ArchiveContents>, AssetError>(AssetError::InvalidEntryPath),
{
    let layers = source_layers(sources);
    assert(rejected(layers, a, e));
    assert(!all_indexable(layers));
    let (a2, e2) = choose|a2: int, e2: int| first_rejected(layers, a2, e2);
    assert(rejected(layers, a2, e2));
    assert(not_after(a, e, a2, e2));
    assert(not_after(a2, e2, a, e));
}

/// A source that does not open fails construction with `MalformedArchive`,
/// whatever the other sources hold.
pub proof fn lemma_unopened_source_fails_construction(sources: Seq<Vec<u8>>)
    requires
        !all_open(sources),
    ensures
        construction(sources) == Err::<Seq<ArchiveContents>, AssetError>(AssetError::MalformedArchive),
{
}

} // verus!
