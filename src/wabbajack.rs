//! The manifest of a modlist package: display metadata and the archives it
//! needs.

use vstd::prelude::*;
use crate::archive_state::{opt_view, ArchiveState};

verus! {

/// One entry of a manifest: a file the package needs.
#[derive(Debug)]
pub struct Archive {
    pub hash: String,
    pub meta: String,
    /// The file name the manifest declares for the content.
    pub filename: String,
    pub size: u64,
    pub state: ArchiveState,
}

impl Archive {
    pub fn name(&self) -> (r: Option<String>)
        ensures
            opt_view(r) == self.state.spec_name(),
    {
        self.state.name()
    }

    pub fn version(&self) -> (r: Option<String>)
        ensures
            opt_view(r) == self.state.spec_version(),
    {
        self.state.version()
    }
}

#[derive(Debug)]
pub struct WabbajackMetadata {
    pub archives: Vec<Archive>,
    pub author: String,
    pub description: String,
    pub version: String,
    pub game_type: String,
    pub image: String,
    pub name: String,
    pub readme: String,
    pub wabbajack_version: String,
    pub website: String,
    pub is_nsfw: bool,
}

/// The declared file names of the entries whose source is not recognised.
pub open spec fn unknown_filenames(archives: Seq<Archive>) -> Seq<Seq<char>>
    decreases archives.len(),
{
    if archives.len() == 0 {
        seq![]
    } else {
        let rest = unknown_filenames(archives.drop_last());
        if archives.last().state is UnknownDownloader {
            rest.push(archives.last().filename@)
        } else {
            rest
        }
    }
}

/// The entries whose content has to be downloaded, in manifest order.
pub open spec fn required(archives: Seq<Archive>) -> Seq<Archive>
    decreases archives.len(),
{
    if archives.len() == 0 {
        seq![]
    } else {
        let rest = required(archives.drop_last());
        if archives.last().state.spec_requires_download() {
            rest.push(archives.last())
        } else {
            rest
        }
    }
}

pub open spec fn filenames(archives: Seq<Archive>) -> Seq<Seq<char>> {
    archives.map_values(|a: Archive| a.filename@)
}

pub open spec fn derefs(s: Seq<&Archive>) -> Seq<Archive> {
    s.map_values(|a: &Archive| *a)
}

pub open spec fn string_views(v: Seq<String>) -> Seq<Seq<char>> {
    v.map_values(|s: String| s@)
}

impl WabbajackMetadata {
    pub fn files_from_unknown_downloaders(&self) -> (r: Vec<String>)
        ensures
            string_views(r@) == unknown_filenames(self.archives@),
    {
        let mut r: Vec<String> = Vec::new();
        let mut i: usize = 0;
        while i < self.archives.len()
            invariant
                i <= self.archives@.len(),
                string_views(r@) == unknown_filenames(self.archives@.subrange(0, i as int)),
            decreases self.archives@.len() - i,
        {
            proof {
                assert(self.archives@.subrange(0, i + 1).drop_last() =~= self.archives@.subrange(0, i as int));
            }
            if self.archives[i].state.is_unknown() {
                let ghost before = r@;
                r.push(self.archives[i].filename.clone());
                proof {
                    assert(string_views(r@) =~= string_views(before).push(self.archives@[i as int].filename@));
                }
            }
            i = i + 1;
        }
        proof {
            assert(self.archives@.subrange(0, i as int) =~= self.archives@);
        }
        r
    }

    pub fn required_archives(&self) -> (r: Vec<&Archive>)
        ensures
            derefs(r@) == required(self.archives@),
    {
        let mut r: Vec<&Archive> = Vec::new();
        let mut i: usize = 0;
        while i < self.archives.len()
            invariant
                i <= self.archives@.len(),
                derefs(r@) == required(self.archives@.subrange(0, i as int)),
            decreases self.archives@.len() - i,
        {
            proof {
                assert(self.archives@.subrange(0, i + 1).drop_last() =~= self.archives@.subrange(0, i as int));
            }
            if self.archives[i].state.requires_download() {
                let ghost before = r@;
                r.push(&self.archives[i]);
                proof {
                    assert(derefs(r@) =~= derefs(before).push(self.archives@[i as int]));
                }
            }
            i = i + 1;
        }
        proof {
            assert(self.archives@.subrange(0, i as int) =~= self.archives@);
        }
        r
    }

    pub fn required_files(&self) -> (r: Vec<String>)
        ensures
            string_views(r@) == filenames(required(self.archives@)),
    {
        let req = self.required_archives();
        let mut r: Vec<String> = Vec::new();
        let mut i: usize = 0;
        while i < req.len()
            invariant
                i <= req@.len(),
                derefs(req@) == required(self.archives@),
                string_views(r@) == filenames(derefs(req@).subrange(0, i as int)),
            decreases req@.len() - i,
        {
            let ghost before = r@;
            r.push(req[i].filename.clone());
            proof {
                assert(string_views(r@) =~= string_views(before).push(req@[i as int].filename@));
                assert(filenames(derefs(req@).subrange(0, i + 1)) =~= filenames(
                    derefs(req@).subrange(0, i as int),
                ).push(req@[i as int].filename@));
            }
            i = i + 1;
        }
        proof {
            assert(derefs(req@).subrange(0, i as int) =~= derefs(req@));
        }
        r
    }
}

} // verus!
