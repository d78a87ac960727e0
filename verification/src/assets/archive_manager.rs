//! The layered archive index: every entry of every archive, in supply order,
//! under one flat namespace of logical paths in which a later entry replaces
//! an earlier one of the same path.
use std::io::Cursor;
use std::io::Read;
use vstd::hash_map::StringHashMap;
use vstd::prelude::*;
use zip::result::ZipError;
use zip::ZipArchive;

verus! {

#[verifier::external_type_specification]
#[verifier::external_body]
#[verifier::reject_recursive_types(R)]
pub struct ExZipArchive<R>(ZipArchive<R>);

#[verifier::external_type_specification]
#[verifier::external_body]
#[verifier::reject_recursive_types(T)]
pub struct ExCursor<T>(Cursor<T>);

#[verifier::external_type_specification]
#[verifier::external_body]
pub struct ExZipError(ZipError);

/// Whether `zip::ZipArchive::new` accepts an in-memory container of these bytes.
pub uninterp spec fn archive_opens(bytes: Seq<u8>) -> bool;

/// The bytes of the container that an opened archive reads.
pub uninterp spec fn archive_source(archive: ZipArchive<Cursor<Vec<u8>>>) -> Seq<u8>;

/// For each entry of the archive in a container, by entry index, what opening
/// it and asking for its enclosed name gives: `None` where the entry cannot be
/// opened, `Some(None)` where its stored name gives no textual path below the
/// root, and `Some(Some(path))` otherwise.
pub uninterp spec fn entry_names(bytes: Seq<u8>) -> Seq<Option<Option<Seq<char>>>>;

/// For each entry of the archive in a container, by entry index, its
/// decompressed payload, or `None` where the entry cannot be opened or read
/// to its end.
pub uninterp spec fn entry_payloads(bytes: Seq<u8>) -> Seq<Option<Seq<u8>>>;

/// What one archive holds, as far as the index reads it.
pub struct ArchiveContents {
    pub names: Seq<Option<Option<Seq<char>>>>,
    pub payloads: Seq<Option<Seq<u8>>>,
}

pub open spec fn contents_of(bytes: Seq<u8>) -> ArchiveContents {
    ArchiveContents { names: entry_names(bytes), payloads: entry_payloads(bytes) }
}

#[derive(Debug, Clone, Copy, PartialEq, Eq, Structural)]
pub enum AssetError {
    /// A source could not be opened as an archive, or one of its entries could not be opened.
    MalformedArchive,
    /// An entry's stored name gives no path below the root, or none that is text.
    InvalidEntryPath,
    /// An indexed entry could not be decompressed and read.
    CorruptResource,
}

/// Entry `e` of layer `a` carries the logical path `path`.
pub open spec fn carries(layers: Seq<ArchiveContents>, a: int, e: int, path: Seq<char>) -> bool {
    &&& 0 <= a < layers.len()
    &&& 0 <= e < layers[a].names.len()
    &&& layers[a].names[e] == Some(Some(path))
}

/// Position `(a1, e1)` is scanned strictly before `(a2, e2)`.
pub open spec fn before(a1: int, e1: int, a2: int, e2: int) -> bool {
    a1 < a2 || (a1 == a2 && e1 < e2)
}

/// Position `(a1, e1)` is `(a2, e2)` or is scanned before it.
pub open spec fn not_after(a1: int, e1: int, a2: int, e2: int) -> bool {
    a1 < a2 || (a1 == a2 && e1 <= e2)
}

/// Some entry of some layer carries `path`.
pub open spec fn present(layers: Seq<ArchiveContents>, path: Seq<char>) -> bool {
    exists|a: int, e: int| carries(layers, a, e, path)
}

/// Entry `e` of layer `a` is the last one, in supply order, that carries `path`.
pub open spec fn wins(layers: Seq<ArchiveContents>, a: int, e: int, path: Seq<char>) -> bool {
    &&& carries(layers, a, e, path)
    &&& forall|a2: int, e2: int| #[trigger] carries(layers, a2, e2, path) ==> not_after(a2, e2, a, e)
}

/// Entry `e` of layer `a` has no path under which it could be indexed.
pub open spec fn rejected(layers: Seq<ArchiveContents>, a: int, e: int) -> bool {
    &&& 0 <= a < layers.len()
    &&& 0 <= e < layers[a].names.len()
    &&& !(layers[a].names[e] is Some && layers[a].names[e]->0 is Some)
}

/// Entry `e` of layer `a` is the first rejected one in supply order.
pub open spec fn first_rejected(layers: Seq<ArchiveContents>, a: int, e: int) -> bool {
    &&& rejected(layers, a, e)
    &&& forall|a2: int, e2: int| #[trigger] rejected(layers, a2, e2) ==> not_after(a, e, a2, e2)
}

pub open spec fn all_indexable(layers: Seq<ArchiveContents>) -> bool {
    forall|a: int, e: int| !#[trigger] rejected(layers, a, e)
}

/// What resolving `path` against `layers` gives: nothing where no entry
/// carries it, else the payload of the winning entry, or `CorruptResource`
/// where that payload cannot be read.
pub open spec fn resolved(layers: Seq<ArchiveContents>, path: Seq<char>) -> Result<Option<Seq<u8>>, AssetError> {
    if !present(layers, path) {
        Ok(None)
    } else {
        let (a, e) = choose|a: int, e: int| wins(layers, a, e, path);
        if e < layers[a].payloads.len() && layers[a].payloads[e] is Some {
            Ok(Some(layers[a].payloads[e]->0))
        } else {
            Err(AssetError::CorruptResource)
        }
    }
}

pub open spec fn all_open(sources: Seq<Vec<u8>>) -> bool {
    forall|i: int| 0 <= i < sources.len() ==> #[trigger] archive_opens(sources[i]@)
}

pub open spec fn source_layers(sources: Seq<Vec<u8>>) -> Seq<ArchiveContents> {
    Seq::new(sources.len(), |i: int| contents_of(sources[i]@))
}

/// What building the index over `sources` gives: the layers to resolve
/// against, or the error of the first failure. All sources are opened before
/// any entry is scanned.
pub open spec fn construction(sources: Seq<Vec<u8>>) -> Result<Seq<ArchiveContents>, AssetError> {
    if !all_open(sources) {
        Err(AssetError::MalformedArchive)
    } else if all_indexable(source_layers(sources)) {
        Ok(source_layers(sources))
    } else {
        let (a, e) = choose|a: int, e: int| first_rejected(source_layers(sources), a, e);
        if source_layers(sources)[a].names[e] is None {
            Err(AssetError::MalformedArchive)
        } else {
            Err(AssetError::InvalidEntryPath)
        }
    }
}

pub open spec fn bytes_view(r: Result<Option<Vec<u8>>, AssetError>) -> Result<Option<Seq<u8>>, AssetError> {
    match r {
        Ok(Some(b)) => Ok(Some(b@)),
        Ok(None) => Ok(None),
        Err(e) => Err(e),
    }
}

/// Calls `zip::ZipArchive::new` on a cursor over a copy of `bytes`. Trusted:
/// it succeeds exactly where `archive_opens` says so, and the archive then
/// reads these bytes.
#[verifier::external_body]
fn open_archive(bytes: &Vec<u8>) -> (r: Result<ZipArchive<Cursor<Vec<u8>>>, ZipError>)
    ensures
        r is Ok <==> archive_opens(bytes@),
        r is Ok ==> archive_source(r->Ok_0) == bytes@,
{
    ZipArchive::new(Cursor::new(bytes.clone()))
}

/// Calls `zip::ZipArchive::len`. Trusted: it is the number of entries that
/// `entry_names` lists.
#[verifier::external_body]
fn archive_len(archive: &ZipArchive<Cursor<Vec<u8>>>) -> (n: usize)
    ensures
        n == entry_names(archive_source(*archive)).len(),
{
    archive.len()
}

/// Calls `zip::ZipArchive::by_index` and `enclosed_name` on the entry, and
/// hands the path out as text. Trusted: the outcome is the one that
/// `entry_names` lists for `index` (an error where the entry cannot be
/// opened, which includes an index past the end), and what the archive holds
/// stays as it was.
#[verifier::external_body]
fn entry_path(archive: &mut ZipArchive<Cursor<Vec<u8>>>, index: usize) -> (r: Result<Option<String>, ZipError>)
    ensures
        archive_source(*final(archive)) == archive_source(*old(archive)),
        index < entry_names(archive_source(*old(archive))).len() ==> match r {
            Ok(Some(p)) => entry_names(archive_source(*old(archive)))[index as int] == Some(Some(p@)),
            Ok(None) => entry_names(archive_source(*old(archive)))[index as int] == Some(
                None::<Seq<char>>,
            ),
            Err(_) => entry_names(archive_source(*old(archive)))[index as int] is None,
        },
        index >= entry_names(archive_source(*old(archive))).len() ==> r is Err,
{
    let file = archive.by_index(index)?;
    Ok(file.enclosed_name().and_then(|p| p.to_str().map(|s| s.to_owned())))
}

/// Calls `zip::ZipArchive::by_index` and reads the entry to its end with
/// `std::io::Read::read_to_end`. Trusted: the outcome is the one that
/// `entry_payloads` lists for `index` (nothing for an index past the end),
/// and what the archive holds stays as it was.
#[verifier::external_body]
fn entry_bytes(archive: &mut ZipArchive<Cursor<Vec<u8>>>, index: usize) -> (r: Option<Vec<u8>>)
    ensures
        archive_source(*final(archive)) == archive_source(*old(archive)),
        index < entry_payloads(archive_source(*old(archive))).len() ==> match r {
            Some(b) => entry_payloads(archive_source(*old(archive)))[index as int] == Some(b@),
            None => entry_payloads(archive_source(*old(archive)))[index as int] is None,
        },
        index >= entry_payloads(archive_source(*old(archive))).len() ==> r is None,
{
    let mut file = archive.by_index(index).ok()?;
    let mut buf: Vec<u8> = Vec::new();
    file.read_to_end(&mut buf).ok()?;
    Some(buf)
}

/// Where an indexed path lives: which archive, and which entry of it.
#[derive(Debug, Clone, Copy)]
struct ArchiveResourceIndex {
    file_index: usize,
    archive_index: usize,
}

pub struct ArchiveManager {
    archives: Vec<ZipArchive<Cursor<Vec<u8>>>>,
    resource_map: StringHashMap<ArchiveResourceIndex>,
}

pub open spec fn layers_of(archives: Seq<ZipArchive<Cursor<Vec<u8>>>>) -> Seq<ArchiveContents> {
    Seq::new(archives.len(), |i: int| contents_of(archive_source(archives[i])))
}

/// The map agrees with the scan of `layers` up to, and without, position `(ca, ce)`.
spec fn indexed_up_to(
    map: Map<Seq<char>, ArchiveResourceIndex>,
    layers: Seq<ArchiveContents>,
    ca: int,
    ce: int,
) -> bool {
    &&& forall|a: int, e: int| #[trigger] rejected(layers, a, e) ==> !before(a, e, ca, ce)
    &&& forall|p: Seq<char>, a: int, e: int| #[trigger]
        carries(layers, a, e, p) && before(a, e, ca, ce) ==> map.contains_key(p) && not_after(
            a,
            e,
            map[p].archive_index as int,
            map[p].file_index as int,
        )
    &&& forall|p: Seq<char>| #[trigger]
        map.contains_key(p) ==> carries(
            layers,
            map[p].archive_index as int,
            map[p].file_index as int,
            p,
        ) && before(map[p].archive_index as int, map[p].file_index as int, ca, ce)
}

impl ArchiveManager {
    /// The contents of the archives, in supply order.
    pub closed spec fn layers(&self) -> Seq<ArchiveContents> {
        layers_of(self.archives@)
    }

    /// The namespace holds exactly the paths that some entry carries, each
    /// at its winning entry, and every entry is indexable.
    pub closed spec fn wf(&self) -> bool {
        indexed_up_to(self.resource_map@, self.layers(), self.layers().len() as int, 0)
    }

    /// In a well-formed index no entry is without a path.
    pub proof fn lemma_wf_all_indexable(&self)
        requires
            self.wf(),
        ensures
            all_indexable(self.layers()),
    {
    }

    /// Opens every source, then scans every entry in supply order and
    /// records each path at the last entry that carries it. Fails as a whole
    /// on the first source that does not open, else on the first entry
    /// without a valid path.
    pub fn create(archive_files: Vec<Vec<u8>>) -> (r: Result<ArchiveManager, AssetError>)
        ensures
            match construction(archive_files@) {
                Ok(layers) => r is Ok && r->Ok_0.wf() && r->Ok_0.layers() == layers,
                Err(e) => r is Err && r->Err_0 == e,
            },
    {
        let mut archives: Vec<ZipArchive<Cursor<Vec<u8>>>> = Vec::new();
        let n: usize = archive_files.len();
        let mut i: usize = 0;
        while i < n
            invariant
                i <= n,
                n == archive_files.len(),
                archives.len() == i,
                forall|j: int| 0 <= j < i ==> #[trigger] archive_opens(archive_files@[j]@),
                forall|j: int| 0 <= j < i ==> archive_source(#[trigger] archives@[j]) == archive_files@[j]@,
            decreases n - i,
        {
            match open_archive(&archive_files[i]) {
                Ok(a) => archives.push(a),
                Err(_) => {
                    return Err(AssetError::MalformedArchive);
                },
            }
            i += 1;
        }
        let ghost layers = source_layers(archive_files@);
        assert(layers_of(archives@) =~= layers);
        let mut resource_map: StringHashMap<ArchiveResourceIndex> = StringHashMap::new();
        let mut archive_index: usize = 0;
        while archive_index < n
            invariant
                archive_index <= n,
                n == archives.len(),
                layers.len() == n,
                layers_of(archives@) == layers,
                layers == source_layers(archive_files@),
                all_open(archive_files@),
                indexed_up_to(resource_map@, layers, archive_index as int, 0),
            decreases n - archive_index,
        {
            let count: usize = archive_len(&archives[archive_index]);
            let mut file_index: usize = 0;
            while file_index < count
                invariant
                    archive_index < n,
                    file_index <= count,
                    n == archives.len(),
                    layers.len() == n,
                    count == layers[archive_index as int].names.len(),
                    layers_of(archives@) == layers,
                    layers == source_layers(archive_files@),
                    all_open(archive_files@),
                    indexed_up_to(resource_map@, layers, archive_index as int, file_index as int),
                decreases count - file_index,
            {
                let ghost before_call = archives@;
                assert(layers[archive_index as int] == contents_of(archive_source(archives@[archive_index as int])));
                let probe = entry_path(&mut archives[archive_index], file_index);
                assert(layers_of(archives@) =~= layers) by {
                    assert forall|k: int| 0 <= k < n implies contents_of(archive_source(#[trigger] archives@[k]))
                        == layers[k] by {
                        assert(layers[k] == contents_of(archive_source(before_call[k])));
                    }
                }
                match probe {
                    Ok(Some(file_name)) => {
                        resource_map.insert(file_name, ArchiveResourceIndex { file_index, archive_index });
                    },
                    Ok(None) => {
                        assert(first_rejected(layers, archive_index as int, file_index as int));
                        return Err(AssetError::InvalidEntryPath);
                    },
                    Err(_) => {
                        assert(first_rejected(layers, archive_index as int, file_index as int));
                        return Err(AssetError::MalformedArchive);
                    },
                }
                file_index += 1;
            }
            archive_index += 1;
        }
        Ok(ArchiveManager { archives, resource_map })
    }

    /// Resolves a logical path to the bytes of the entry that won it.
    /// `Ok(None)` where the path is not indexed; `CorruptResource` where the
    /// entry is there and cannot be read. The index itself stays as it was.
    pub fn get_resource_bytes(&mut self, resource_id: String) -> (r: Result<Option<Vec<u8>>, AssetError>)
        requires
            old(self).wf(),
        ensures
            final(self).wf(),
            final(self).layers() == old(self).layers(),
            bytes_view(r) == resolved(old(self).layers(), resource_id@),
    {
        let ghost layers = self.layers();
        let location = match self.resource_map.get(resource_id.as_str()) {
            None => {
                return Ok(None);
            },
            Some(l) => *l,
        };
        proof {
            assert(wins(layers, location.archive_index as int, location.file_index as int, resource_id@));
        }
        let ghost before_call = self.archives@;
        let read = entry_bytes(&mut self.archives[location.archive_index], location.file_index);
        assert(self.layers() =~= layers) by {
            assert forall|k: int| 0 <= k < layers.len() implies contents_of(archive_source(#[trigger] self.archives@[k]))
                == layers[k] by {
                assert(layers[k] == contents_of(archive_source(before_call[k])));
            }
        }
        match read {
            Some(buf) => Ok(Some(buf)),
            None => Err(AssetError::CorruptResource),
        }
    }
}

} // verus!
