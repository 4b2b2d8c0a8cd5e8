//! Where the catalog keeps its files: one data directory holding the
//! database, the packages and the downloaded content.

use vstd::prelude::*;

verus! {

/// `base` extended by the relative path `part`, with one `/` between them.
/// An absolute `part` replaces `base`.
pub open spec fn joined(base: Seq<char>, part: Seq<char>) -> Seq<char> {
    if part.len() > 0 && part[0] == '/' {
        part
    } else if base.len() == 0 {
        part
    } else if base.last() == '/' {
        base + part
    } else {
        base + seq!['/'] + part
    }
}

pub fn join(base: &str, part: &str) -> (r: String)
    ensures
        r@ == joined(base@, part@),
{
    let plen = part.unicode_len();
    let blen = base.unicode_len();
    if plen > 0 && part.get_char(0) == '/' {
        return part.to_owned();
    }
    if blen == 0 {
        return part.to_owned();
    }
    let mut r = base.to_owned();
    if base.get_char(blen - 1) != '/' {
        r.append("/");
        proof {
            reveal_strlit("/");
        }
    }
    r.append(part);
    proof {
        assert(base@.last() == base@[blen - 1]);
        if base@.last() != '/' {
            assert(r@ =~= base@ + seq!['/'] + part@);
        }
    }
    r
}

pub open spec fn db_file() -> Seq<char> {
    "db.db"@
}

pub open spec fn modlist_dir_name() -> Seq<char> {
    "Modlists"@
}

pub open spec fn mod_dir_name() -> Seq<char> {
    "Downloads"@
}

#[derive(Debug)]
pub struct DataDir(String);

impl View for DataDir {
    type V = Seq<char>;

    closed spec fn view(&self) -> Seq<char> {
        self.0@
    }
}

impl Clone for DataDir {
    fn clone(&self) -> (r: Self)
        ensures
            r@ == self@,
    {
        DataDir(self.0.clone())
    }
}

impl DataDir {
    /// The data directory at `path`; the directories are created by the
    /// caller.
    pub fn new(path: &str) -> (r: DataDir)
        ensures
            r@ == path@,
    {
        DataDir(path.to_owned())
    }

    pub fn get_path(&self) -> (r: &String)
        ensures
            r@ == self@,
    {
        &self.0
    }

    pub fn get_db_path(&self) -> (r: String)
        ensures
            r@ == joined(self@, db_file()),
    {
        join(self.0.as_str(), "db.db")
    }

    pub fn get_modlist_dir(&self) -> (r: String)
        ensures
            r@ == joined(self@, modlist_dir_name()),
    {
        join(self.0.as_str(), "Modlists")
    }

    pub fn get_mod_dir(&self) -> (r: String)
        ensures
            r@ == joined(self@, mod_dir_name()),
    {
        join(self.0.as_str(), "Downloads")
    }

    pub fn get_modlist_path(&self, modlist_filename: &str) -> (r: String)
        ensures
            r@ == joined(joined(self@, modlist_dir_name()), modlist_filename@),
    {
        let dir = self.get_modlist_dir();
        join(dir.as_str(), modlist_filename)
    }

    pub fn get_mod_path(&self, mod_filename: &str) -> (r: String)
        ensures
            r@ == joined(joined(self@, mod_dir_name()), mod_filename@),
    {
        let dir = self.get_mod_dir();
        join(dir.as_str(), mod_filename)
    }
}

} // verus!
