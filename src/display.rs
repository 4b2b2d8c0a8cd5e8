//! Small text helpers for presenting catalog entries.

use vstd::prelude::*;
use crate::catalog::{lemma_filter_ends, lemma_filter_step};

verus! {

/// What `str::to_lowercase` makes of some text.
pub uninterp spec fn lower_of(s: Seq<char>) -> Seq<char>;

/// Relies on `str::to_lowercase`: the result depends on the characters alone.
#[verifier::external_body]
fn lowercase(s: &str) -> (r: String)
    ensures
        r@ == lower_of(s@),
{
    s.to_lowercase()
}

/// A hash shortened for display: its first 16 characters and `...` when
/// it is longer than that.
pub open spec fn shortened_hash(h: Seq<char>) -> Seq<char> {
    if h.len() > 16 {
        h.subrange(0, 16) + "..."@
    } else {
        h
    }
}

pub fn format_hash(hash: &str) -> (r: String)
    requires
        hash.is_ascii(),
    ensures
        r@ == shortened_hash(hash@),
{
    if hash.unicode_len() > 16 {
        let mut r = hash.substring_ascii(0, 16).to_owned();
        r.append("...");
        r
    } else {
        hash.to_owned()
    }
}

pub open spec fn not_space() -> spec_fn(char) -> bool {
    |c: char| c != ' '
}

/// The text without its spaces.
pub fn remove_spaces(s: &str) -> (r: String)
    ensures
        r@ == s@.filter(not_space()),
{
    let len = s.unicode_len();
    let mut r = String::new();
    let mut i: usize = 0;
    proof {
        lemma_filter_ends(s@, not_space());
    }
    while i < len
        invariant
            len == s@.len(),
            i <= len,
            r@ == s@.subrange(0, i as int).filter(not_space()),
        decreases len - i,
    {
        proof {
            lemma_filter_step(s@, not_space(), i as int);
        }
        if s.get_char(i) != ' ' {
            r.append(s.substring_char(i, i + 1));
            proof {
                assert(s@.subrange(i as int, i + 1) =~= seq![s@[i as int]]);
            }
        }
        i = i + 1;
    }
    proof {
        lemma_filter_ends(s@, not_space());
    }
    r
}

/// The game's part of a Nexus Mods address: its name in lower case,
/// without spaces.
pub fn nexus_game_url_slug(game_name: &str) -> (r: String)
    ensures
        r@ == lower_of(game_name@).filter(not_space()),
{
    let lower = lowercase(game_name);
    remove_spaces(lower.as_str())
}

} // verus!
