//! Checking a download directory against what a manifest requires.

use vstd::prelude::*;
use crate::catalog::{lemma_filter_ends, lemma_filter_step};
use crate::wabbajack::string_views;

verus! {

#[derive(Debug)]
pub struct FileComparisonResult {
    /// Required files that the directory lacks.
    pub missing_files: Vec<String>,
    /// Required files that the directory has.
    pub satisfied_files: Vec<String>,
    /// Files in the directory that nothing requires.
    pub extraneous_files: Vec<String>,
}

pub open spec fn in_list(list: Seq<Seq<char>>) -> spec_fn(Seq<char>) -> bool {
    |f: Seq<char>| list.contains(f)
}

pub open spec fn not_in_list(list: Seq<Seq<char>>) -> spec_fn(Seq<char>) -> bool {
    |f: Seq<char>| !list.contains(f)
}

fn contains_text(v: &Vec<String>, s: &String) -> (r: bool)
    ensures
        r == string_views(v@).contains(s@),
{
    let mut i: usize = 0;
    while i < v.len()
        invariant
            i <= v@.len(),
            forall|k: int| 0 <= k < i ==> (#[trigger] v@[k])@ != s@,
        decreases v@.len() - i,
    {
        if v[i] == *s {
            assert(string_views(v@)[i as int] == s@);
            return true;
        }
        i = i + 1;
    }
    proof {
        if string_views(v@).contains(s@) {
            let k = choose|k: int| 0 <= k < string_views(v@).len() && string_views(v@)[k] == s@;
            assert(v@[k]@ == s@);
        }
    }
    false
}

/// The elements of `from` that are (or, with `keep_present` false, are not)
/// in `other`, in order.
fn select_by_presence(from: &Vec<String>, other: &Vec<String>, keep_present: bool) -> (r: Vec<String>)
    ensures
        string_views(r@) == string_views(from@).filter(
            if keep_present {
                in_list(string_views(other@))
            } else {
                not_in_list(string_views(other@))
            },
        ),
{
    let ghost p = if keep_present {
        in_list(string_views(other@))
    } else {
        not_in_list(string_views(other@))
    };
    let ghost s = string_views(from@);
    let mut r: Vec<String> = Vec::new();
    let mut i: usize = 0;
    proof {
        lemma_filter_ends(s, p);
    }
    while i < from.len()
        invariant
            s == string_views(from@),
            p == (if keep_present {
                in_list(string_views(other@))
            } else {
                not_in_list(string_views(other@))
            }),
            i <= from@.len(),
            string_views(r@) == s.subrange(0, i as int).filter(p),
        decreases from@.len() - i,
    {
        proof {
            lemma_filter_step(s, p, i as int);
        }
        if contains_text(other, &from[i]) == keep_present {
            let ghost before = r@;
            r.push(from[i].clone());
            proof {
                assert(string_views(r@) =~= string_views(before).push(s[i as int]));
            }
        }
        i = i + 1;
    }
    proof {
        lemma_filter_ends(s, p);
    }
    r
}

pub fn compare_file_lists(required_files: &Vec<String>, files_in_download_dir: &Vec<String>) -> (r:
    FileComparisonResult)
    ensures
        string_views(r.extraneous_files@) == string_views(files_in_download_dir@).filter(
            not_in_list(string_views(required_files@)),
        ),
        string_views(r.satisfied_files@) == string_views(required_files@).filter(
            in_list(string_views(files_in_download_dir@)),
        ),
        string_views(r.missing_files@) == string_views(required_files@).filter(
            not_in_list(string_views(files_in_download_dir@)),
        ),
{
    FileComparisonResult {
        extraneous_files: select_by_presence(files_in_download_dir, required_files, false),
        satisfied_files: select_by_presence(required_files, files_in_download_dir, true),
        missing_files: select_by_presence(required_files, files_in_download_dir, false),
    }
}

/// What an uploaded file is, going by its extension.
#[derive(Debug, Clone, Copy, PartialEq, Eq, Structural)]
pub enum UploadType {
    Modlist,
    Mod,
}

impl UploadType {
    pub fn from_extension(extension: &str) -> (r: UploadType)
        ensures
            r == (if extension@ == "wabbajack"@ {
                UploadType::Modlist
            } else {
                UploadType::Mod
            }),
    {
        if extension.to_owned() == "wabbajack".to_owned() {
            UploadType::Modlist
        } else {
            UploadType::Mod
        }
    }

    /// The path segment that uploads of this type are sent to.
    pub fn as_str(&self) -> (r: &'static str)
        ensures
            r@ == (match self {
                UploadType::Modlist => "modlist"@,
                UploadType::Mod => "mod"@,
            }),
    {
        match self {
            UploadType::Modlist => "modlist",
            UploadType::Mod => "mod",
        }
    }
}

} // verus!
