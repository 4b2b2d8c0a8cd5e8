//! A directory of downloaded archives, as the validating tool sees it.

use vstd::prelude::*;
use crate::catalog::{lemma_filter_ends, lemma_filter_step};
use crate::wabbajack::string_views;

verus! {

#[derive(Debug)]
pub struct DownloadDirectory {
    pub path: String,
}

/// Whether a file name is a download's metadata side file.
pub open spec fn is_meta_name(s: Seq<char>) -> bool {
    s.len() >= 5 && s.subrange(s.len() - 5, s.len() as int) == ".meta"@
}

pub open spec fn not_meta() -> spec_fn(Seq<char>) -> bool {
    |s: Seq<char>| !is_meta_name(s)
}

fn ends_with_meta(s: &String) -> (r: bool)
    ensures
        r == is_meta_name(s@),
{
    let len = s.as_str().unicode_len();
    if len < 5 {
        return false;
    }
    s.as_str().substring_char(len - 5, len).to_owned() == ".meta".to_owned()
}

impl DownloadDirectory {
    pub fn new(path: &str) -> (r: DownloadDirectory)
        ensures
            r.path@ == path@,
    {
        DownloadDirectory { path: path.to_owned() }
    }

    /// The archive names among the entries of the directory: every entry
    /// but the `.meta` side files, in order.
    pub fn archive_names(entries: &Vec<String>) -> (r: Vec<String>)
        ensures
            string_views(r@) == string_views(entries@).filter(not_meta()),
    {
        let ghost s = string_views(entries@);
        let mut r: Vec<String> = Vec::new();
        let mut i: usize = 0;
        proof {
            lemma_filter_ends(s, not_meta());
        }
        while i < entries.len()
            invariant
                s == string_views(entries@),
                i <= entries@.len(),
                string_views(r@) == s.subrange(0, i as int).filter(not_meta()),
            decreases entries@.len() - i,
        {
            proof {
                lemma_filter_step(s, not_meta(), i as int);
            }
            if !ends_with_meta(&entries[i]) {
                let ghost before = r@;
                r.push(entries[i].clone());
                proof {
                    assert(string_views(r@) =~= string_views(before).push(s[i as int]));
                }
            }
            i = i + 1;
        }
        proof {
            lemma_filter_ends(s, not_meta());
        }
        r
    }
}

} // verus!
