//! Names under which an upload may be stored. The first candidate is the
//! requested name; the next ones append the content hash and then a
//! counter, so that a free name is always found by trying them in order.

use vstd::prelude::*;

verus! {

/// The position of the last `.` in a file name.
pub open spec fn last_dot(s: Seq<char>) -> Option<int>
    decreases s.len(),
{
    if s.len() == 0 {
        None
    } else if s.last() == '.' {
        Some(s.len() - 1)
    } else {
        last_dot(s.drop_last())
    }
}

/// A file name split at its last `.` into stem and extension (the
/// extension is empty when there is no `.`).
pub open spec fn split_name(s: Seq<char>) -> (Seq<char>, Seq<char>) {
    match last_dot(s) {
        Some(i) => (s.subrange(0, i), s.subrange(i + 1, s.len() as int)),
        None => (s, seq![]),
    }
}

pub open spec fn digit_text(d: nat) -> Seq<char> {
    if d == 0 {
        "0"@
    } else if d == 1 {
        "1"@
    } else if d == 2 {
        "2"@
    } else if d == 3 {
        "3"@
    } else if d == 4 {
        "4"@
    } else if d == 5 {
        "5"@
    } else if d == 6 {
        "6"@
    } else if d == 7 {
        "7"@
    } else if d == 8 {
        "8"@
    } else {
        "9"@
    }
}

/// The decimal digits of `n`.
pub open spec fn decimal(n: nat) -> Seq<char>
    decreases n,
{
    if n < 10 {
        digit_text(n)
    } else {
        decimal(n / 10) + digit_text(n % 10)
    }
}

/// The `attempt`-th name to try for storing `requested`: the requested
/// name itself, then `stem-hash.ext`, then `stem-hash_1.ext`, `stem-hash_2.ext`
/// and so on (without `.ext` when the name has no extension).
pub open spec fn candidate(requested: Seq<char>, hash: Seq<char>, attempt: nat) -> Seq<char> {
    let (stem, ext) = split_name(requested);
    if attempt == 0 {
        requested
    } else {
        let base = if attempt == 1 {
            stem + "-"@ + hash
        } else {
            stem + "-"@ + hash + "_"@ + decimal((attempt - 1) as nat)
        };
        if ext.len() == 0 {
            base
        } else {
            base + "."@ + ext
        }
    }
}

fn digit_str(d: u64) -> (r: &'static str)
    requires
        d < 10,
    ensures
        r@ == digit_text(d as nat),
{
    if d == 0 {
        "0"
    } else if d == 1 {
        "1"
    } else if d == 2 {
        "2"
    } else if d == 3 {
        "3"
    } else if d == 4 {
        "4"
    } else if d == 5 {
        "5"
    } else if d == 6 {
        "6"
    } else if d == 7 {
        "7"
    } else if d == 8 {
        "8"
    } else {
        "9"
    }
}

fn append_decimal(out: &mut String, n: u64)
    ensures
        final(out)@ == old(out)@ + decimal(n as nat),
    decreases n,
{
    if n >= 10 {
        append_decimal(out, n / 10);
    }
    out.append(digit_str(n % 10));
    proof {
        if n >= 10 {
            assert(final(out)@ =~= old(out)@ + decimal(n as nat));
        }
    }
}

/// The stem and extension of a file name.
pub fn split_extension(name: &str) -> (r: (&str, &str))
    ensures
        r.0@ == split_name(name@).0,
        r.1@ == split_name(name@).1,
{
    let len = name.unicode_len();
    let mut i: usize = len;
    proof {
        assert(name@.subrange(0, len as int) =~= name@);
    }
    while i > 0 && name.get_char(i - 1) != '.'
        invariant
            i <= len,
            len == name@.len(),
            last_dot(name@) == last_dot(name@.subrange(0, i as int)),
        decreases i,
    {
        proof {
            assert(name@.subrange(0, i as int).drop_last() =~= name@.subrange(0, i - 1));
        }
        i = i - 1;
    }
    if i == 0 {
        proof {
            assert(name@.subrange(0, 0).len() == 0);
        }
        (name, name.substring_char(len, len))
    } else {
        proof {
            assert(name@.subrange(0, i as int).last() == name@[i - 1]);
        }
        (name.substring_char(0, i - 1), name.substring_char(i, len))
    }
}

/// The `attempt`-th name to try for storing an upload requested as
/// `requested` whose hash, in URL-safe form, is `hash_base64url`.
pub fn filename_candidate(requested: &str, hash_base64url: &str, attempt: u64) -> (r: String)
    ensures
        r@ == candidate(requested@, hash_base64url@, attempt as nat),
{
    if attempt == 0 {
        return requested.to_owned();
    }
    let (stem, ext) = split_extension(requested);
    let mut r = stem.to_owned();
    r.append("-");
    r.append(hash_base64url);
    if attempt > 1 {
        r.append("_");
        append_decimal(&mut r, attempt - 1);
    }
    if ext.unicode_len() > 0 {
        r.append(".");
        r.append(ext);
    }
    proof {
        assert(r@ =~= candidate(requested@, hash_base64url@, attempt as nat));
    }
    r
}

} // verus!
