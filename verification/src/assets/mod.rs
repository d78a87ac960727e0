//! Resource access over a stack of content archives.
pub mod archive_manager;
pub mod laws;

use crate::assets::archive_manager::{
    all_indexable, construction, resolved, ArchiveContents, ArchiveManager, AssetError,
};
use vstd::prelude::*;

verus! {

/// The one way by which the rest of the crate reads resources. It owns the
/// archives for as long as it lives.
pub struct AssetManager {
    archive_manager: ArchiveManager,
}

impl AssetManager {
    /// The contents of the archives, in supply order.
    pub closed spec fn layers(&self) -> Seq<ArchiveContents> {
        self.archive_manager.layers()
    }

    pub closed spec fn wf(&self) -> bool {
        self.archive_manager.wf()
    }

    /// The bytes that `get_file_raw` hands out for `path`: those of the
    /// entry that won it, where it can be read.
    pub open spec fn file_of(layers: Seq<ArchiveContents>, path: Seq<char>) -> Option<Seq<u8>> {
        match resolved(layers, path) {
            Ok(found) => found,
            Err(_) => None,
        }
    }

    /// Builds the index over the archives, in the order given. Every error
    /// of an archive or of an entry's name comes out here.
    pub fn new(archives: Vec<Vec<u8>>) -> (r: Result<Self, AssetError>)
        ensures
            match construction(archives@) {
                Ok(layers) => r is Ok && r->Ok_0.wf() && r->Ok_0.layers() == layers,
                Err(e) => r is Err && r->Err_0 == e,
            },
    {
        match ArchiveManager::create(archives) {
            Ok(archive_manager) => Ok(AssetManager { archive_manager }),
            Err(e) => Err(e),
        }
    }

    /// The bytes stored under `file_id`, or nothing where the path is not
    /// indexed or its entry cannot be read.
    pub fn get_file_raw(&mut self, file_id: String) -> (r: Option<Vec<u8>>)
        requires
            old(self).wf(),
        ensures
            final(self).wf(),
            final(self).layers() == old(self).layers(),
            match r {
                Some(bytes) => Self::file_of(old(self).layers(), file_id@) == Some(bytes@),
                None => Self::file_of(old(self).layers(), file_id@) is None,
            },
    {
        match self.archive_manager.get_resource_bytes(file_id) {
            Ok(found) => found,
            Err(_) => None,
        }
    }

    /// In a well-formed facade no entry is without a path.
    pub proof fn lemma_wf_all_indexable(&self)
        requires
            self.wf(),
        ensures
            all_indexable(self.layers()),
    {
        self.archive_manager.lemma_wf_all_indexable();
    }
}

} // verus!
