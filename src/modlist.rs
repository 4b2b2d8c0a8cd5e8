//! Modlists: uploaded packages, identified by file name.

use vstd::prelude::*;
use crate::catalog::{
    first_match, has_mod_id, has_modlist_id, lemma_first_match_step, lemma_first_match_whole, Catalog, CatalogView,
    StorageError,
};

verus! {

/// A modlist as mathematical values.
pub struct ModlistView {
    pub id: u64,
    pub filename: Seq<char>,
    pub name: Seq<char>,
    pub version: Seq<char>,
    pub size: u64,
    pub hash: Seq<char>,
    pub available: bool,
    pub muted: bool,
}

#[derive(Debug)]
pub struct Modlist {
    pub id: u64,
    pub filename: String,
    pub name: String,
    pub version: String,
    pub size: u64,
    pub xxhash64: String,
    pub available: bool,
    /// Hidden from the default listing, still tracked.
    pub muted: bool,
}

impl View for Modlist {
    type V = ModlistView;

    open spec fn view(&self) -> ModlistView {
        ModlistView {
            id: self.id,
            filename: self.filename@,
            name: self.name@,
            version: self.version@,
            size: self.size,
            hash: self.xxhash64@,
            available: self.available,
            muted: self.muted,
        }
    }
}


/// The fields of a modlist that is yet to be added to the catalog.
#[derive(Debug)]
pub struct ModlistEgg {
    pub filename: String,
    pub name: String,
    pub version: String,
    pub size: u64,
    pub xxhash64: String,
    pub available: bool,
}

impl Clone for Modlist {
    fn clone(&self) -> (r: Self)
        ensures
            r == *self,
    {
        Modlist {
            id: self.id,
            filename: self.filename.clone(),
            name: self.name.clone(),
            version: self.version.clone(),
            size: self.size,
            xxhash64: self.xxhash64.clone(),
            available: self.available,
            muted: self.muted,
        }
    }
}

impl CatalogView {
    pub open spec fn has_modlist_filename(self, filename: Seq<char>) -> bool {
        exists|i: int| 0 <= i < self.modlists.len() && #[trigger] self.modlists[i].filename == filename
    }

    pub open spec fn modlist_filename_index(self, filename: Seq<char>) -> int {
        choose|i: int| 0 <= i < self.modlists.len() && #[trigger] self.modlists[i].filename == filename
    }

    pub open spec fn modlist_id_index(self, id: u64) -> int {
        choose|i: int| 0 <= i < self.modlists.len() && #[trigger] self.modlists[i].id == id
    }

    /// The catalog with the modlist at `i` replaced by `m`.
    pub open spec fn with_modlist_at(self, i: int, m: ModlistView) -> CatalogView {
        CatalogView { modlists: self.modlists.update(i, m), ..self }
    }

    /// The catalog with a new modlist appended under the next identifier.
    pub open spec fn with_new_modlist(
        self,
        filename: Seq<char>,
        name: Seq<char>,
        version: Seq<char>,
        size: u64,
        hash: Seq<char>,
        available: bool,
    ) -> CatalogView {
        CatalogView {
            modlists: self.modlists.push(
                ModlistView {
                    id: self.next_modlist_id,
                    filename,
                    name,
                    version,
                    size,
                    hash,
                    available,
                    muted: false,
                },
            ),
            next_modlist_id: (self.next_modlist_id + 1) as u64,
            ..self
        }
    }
}

/// Replacing a modlist by one with the same identifier and a file name no
/// other modlist has keeps the catalog well formed.
pub proof fn lemma_modlist_replaced_wf(c: CatalogView, i: int, m: ModlistView)
    requires
        c.wf(),
        0 <= i < c.modlists.len(),
        m.id == c.modlists[i].id,
        forall|k: int| 0 <= k < c.modlists.len() && k != i ==> (#[trigger] c.modlists[k]).filename != m.filename,
    ensures
        c.with_modlist_at(i, m).wf(),
{
    let d = c.with_modlist_at(i, m);
    assert forall|k: int| 0 <= k < d.associations.len() implies has_modlist_id(
        d.modlists,
        #[trigger] d.associations[k].modlist_id,
    ) by {
        let w = choose|w: int| 0 <= w < c.modlists.len() && (#[trigger] c.modlists[w]).id == c.associations[k].modlist_id;
        assert(d.modlists[w].id == c.modlists[w].id);
    }
    assert forall|a: int, b: int|
        0 <= a < d.modlists.len() && 0 <= b < d.modlists.len() && a != b implies #[trigger] d.modlists[a].filename
        != #[trigger] d.modlists[b].filename by {
        if a != i && b != i {
            assert(d.modlists[a] == c.modlists[a] && d.modlists[b] == c.modlists[b]);
        }
    }
    assert forall|a: int, b: int|
        0 <= a < d.modlists.len() && 0 <= b < d.modlists.len() && a != b implies #[trigger] d.modlists[a].id
        != #[trigger] d.modlists[b].id by {
        assert(d.modlists[a].id == c.modlists[a].id && d.modlists[b].id == c.modlists[b].id);
    }
}

/// Appending a modlist with a new file name keeps the catalog well formed.
pub proof fn lemma_new_modlist_wf(
    c: CatalogView,
    filename: Seq<char>,
    name: Seq<char>,
    version: Seq<char>,
    size: u64,
    hash: Seq<char>,
    available: bool,
)
    requires
        c.wf(),
        !c.has_modlist_filename(filename),
        c.next_modlist_id < u64::MAX,
    ensures
        c.with_new_modlist(filename, name, version, size, hash, available).wf(),
{
    let d = c.with_new_modlist(filename, name, version, size, hash, available);
    let n = c.modlists.len() as int;
    assert forall|k: int| 0 <= k < d.associations.len() implies has_modlist_id(
        d.modlists,
        #[trigger] d.associations[k].modlist_id,
    ) by {
        let w = choose|w: int| 0 <= w < c.modlists.len() && (#[trigger] c.modlists[w]).id == c.associations[k].modlist_id;
        assert(d.modlists[w].id == c.modlists[w].id);
    }
    assert forall|a: int, b: int|
        0 <= a < d.modlists.len() && 0 <= b < d.modlists.len() && a != b implies #[trigger] d.modlists[a].filename
        != #[trigger] d.modlists[b].filename by {
        if a == n {
            assert(c.modlists[b].filename != filename);
        } else if b == n {
            assert(c.modlists[a].filename != filename);
        } else {
            assert(d.modlists[a] == c.modlists[a] && d.modlists[b] == c.modlists[b]);
        }
    }
    assert forall|a: int, b: int|
        0 <= a < d.modlists.len() && 0 <= b < d.modlists.len() && a != b implies #[trigger] d.modlists[a].id
        != #[trigger] d.modlists[b].id by {
        if a == n {
            assert(c.modlists[b].id < c.next_modlist_id);
        } else if b == n {
            assert(c.modlists[a].id < c.next_modlist_id);
        } else {
            assert(d.modlists[a] == c.modlists[a] && d.modlists[b] == c.modlists[b]);
        }
    }
    assert forall|k: int| 0 <= k < d.associations.len() implies has_mod_id(
        d.mods,
        #[trigger] d.associations[k].mod_id,
    ) by {
        let w = choose|w: int| 0 <= w < c.mods.len() && (#[trigger] c.mods[w]).id == c.associations[k].mod_id;
        assert(d.mods[w].id == c.mods[w].id);
    }
}

impl Catalog {
    /// The position of the modlist with this file name, if there is one.
    pub(crate) fn find_modlist_filename(&self, filename: &str) -> (r: Option<usize>)
        requires
            self.wf(),
        ensures
            match r {
                Some(i) => i < self@.modlists.len() && self@.modlists[i as int].filename == filename@
                    && self@.modlist_filename_index(filename@) == i,
                None => !self@.has_modlist_filename(filename@),
            },
    {
        let key = filename.to_owned();
        let mut i: usize = 0;
        while i < self.modlists.len()
            invariant
                self.wf(),
                i <= self.modlists@.len(),
                key@ == filename@,
                forall|k: int| 0 <= k < i ==> #[trigger] self@.modlists[k].filename != filename@,
            decreases self.modlists@.len() - i,
        {
            if self.modlists[i].filename == key {
                assert(self@.modlists[i as int].filename == filename@);
                let ghost j = self@.modlist_filename_index(filename@);
                assert(self@.modlists[j].filename == filename@);
                assert(j == i) by {
                    if j != i {
                        assert(self@.modlists[j].filename == self@.modlists[i as int].filename);
                    }
                }
                return Some(i);
            }
            i = i + 1;
        }
        None
    }

    /// The position of the modlist with identifier `id`, if there is one.
    pub(crate) fn find_modlist_id(&self, id: u64) -> (r: Option<usize>)
        requires
            self.wf(),
        ensures
            match r {
                Some(i) => i < self@.modlists.len() && self@.modlists[i as int].id == id
                    && self@.modlist_id_index(id) == i,
                None => !has_modlist_id(self@.modlists, id),
            },
    {
        let mut i: usize = 0;
        while i < self.modlists.len()
            invariant
                self.wf(),
                i <= self.modlists@.len(),
                forall|k: int| 0 <= k < i ==> (#[trigger] self@.modlists[k]).id != id,
            decreases self.modlists@.len() - i,
        {
            if self.modlists[i].id == id {
                assert(self@.modlists[i as int].id == id);
                let ghost j = self@.modlist_id_index(id);
                assert(self@.modlists[j].id == id);
                assert(j == i) by {
                    if j != i {
                        assert(self@.modlists[j].id == self@.modlists[i as int].id);
                    }
                }
                return Some(i);
            }
            i = i + 1;
        }
        None
    }

    /// Replaces the modlist at position `i` by `m`.
    pub(crate) fn set_modlist_at(&mut self, i: usize, m: Modlist)
        requires
            old(self).wf(),
            i < old(self)@.modlists.len(),
            m.id == old(self)@.modlists[i as int].id,
            forall|k: int|
                0 <= k < old(self)@.modlists.len() && k != i ==> (#[trigger] old(self)@.modlists[k]).filename
                    != m.filename@,
        ensures
            final(self).wf(),
            final(self)@ == old(self)@.with_modlist_at(i as int, m@),
    {
        let ghost c = self@;
        let ghost mv = m@;
        self.modlists[i] = m;
        proof {
            let d = self@;
            assert(d.modlists =~= c.with_modlist_at(i as int, mv).modlists);
            assert(d.mods =~= c.mods);
            assert(d.associations =~= c.associations);
            lemma_modlist_replaced_wf(c, i as int, mv);
        }
    }

    /// Appends a modlist that carries the next identifier and a new file name.
    pub(crate) fn push_modlist(&mut self, m: Modlist)
        requires
            old(self).wf(),
            !old(self)@.has_modlist_filename(m.filename@),
            old(self)@.next_modlist_id < u64::MAX,
            m.id == old(self)@.next_modlist_id,
            !m.muted,
        ensures
            final(self).wf(),
            final(self)@ == old(self)@.with_new_modlist(m.filename@, m.name@, m.version@, m.size, m.xxhash64@, m.available),
    {
        let ghost c = self@;
        let ghost mv = m@;
        self.modlists.push(m);
        self.next_modlist_id = self.next_modlist_id + 1;
        proof {
            let d = self@;
            assert(d.modlists =~= c.with_new_modlist(mv.filename, mv.name, mv.version, mv.size, mv.hash, mv.available).modlists);
            assert(d.mods =~= c.mods);
            assert(d.associations =~= c.associations);
            lemma_new_modlist_wf(c, mv.filename, mv.name, mv.version, mv.size, mv.hash, mv.available);
        }
    }
}

pub open spec fn modlist_hash_is(hash: Seq<char>) -> spec_fn(ModlistView) -> bool {
    |m: ModlistView| m.hash == hash
}

pub open spec fn opt_modlist_view(r: Option<Modlist>) -> Option<ModlistView> {
    match r {
        Some(m) => Some(m@),
        None => None,
    }
}

impl Modlist {
    /// The first cataloged modlist with this hash.
    pub fn get_by_hash(hash: &str, catalog: &Catalog) -> (r: Option<Modlist>)
        ensures
            opt_modlist_view(r) == first_match(catalog@.modlists, modlist_hash_is(hash@)),
    {
        let key = hash.to_owned();
        let mut i: usize = 0;
        proof {
            lemma_first_match_whole(catalog@.modlists, modlist_hash_is(hash@));
        }
        while i < catalog.modlists.len()
            invariant
                i <= catalog.modlists@.len(),
                key@ == hash@,
                first_match(catalog@.modlists, modlist_hash_is(hash@)) == first_match(
                    catalog@.modlists.subrange(i as int, catalog@.modlists.len() as int),
                    modlist_hash_is(hash@),
                ),
            decreases catalog.modlists@.len() - i,
        {
            proof {
                lemma_first_match_step(catalog@.modlists, modlist_hash_is(hash@), i as int);
            }
            if catalog.modlists[i].xxhash64 == key {
                return Some(catalog.modlists[i].clone());
            }
            i = i + 1;
        }
        proof {
            lemma_first_match_whole(catalog@.modlists, modlist_hash_is(hash@));
        }
        None
    }

    pub fn is_available(&self) -> (r: bool)
        ensures
            r == self.available,
    {
        self.available
    }

    pub fn get_by_filename(filename: &str, catalog: &Catalog) -> (r: Option<Modlist>)
        requires
            catalog.wf(),
        ensures
            match r {
                Some(m) => catalog@.has_modlist_filename(filename@)
                    && m@ == catalog@.modlists[catalog@.modlist_filename_index(filename@)],
                None => !catalog@.has_modlist_filename(filename@),
            },
    {
        match catalog.find_modlist_filename(filename) {
            Some(i) => Some(catalog.modlists[i].clone()),
            None => None,
        }
    }

    pub fn get_by_id(id: u64, catalog: &Catalog) -> (r: Option<Modlist>)
        requires
            catalog.wf(),
        ensures
            match r {
                Some(m) => has_modlist_id(catalog@.modlists, id) && m@ == catalog@.modlists[catalog@.modlist_id_index(id)],
                None => !has_modlist_id(catalog@.modlists, id),
            },
    {
        match catalog.find_modlist_id(id) {
            Some(i) => Some(catalog.modlists[i].clone()),
            None => None,
        }
    }

    /// Writes this modlist over the cataloged one with the same identifier.
    /// Fails, changing nothing, when there is none, or when another modlist
    /// has this file name.
    pub fn update(&self, catalog: &mut Catalog) -> (r: Result<(), StorageError>)
        requires
            old(catalog).wf(),
        ensures
            final(catalog).wf(),
            match r {
                Ok(()) => has_modlist_id(old(catalog)@.modlists, self.id) && final(catalog)@ == old(
                    catalog,
                )@.with_modlist_at(old(catalog)@.modlist_id_index(self.id), self@),
                Err(e) => final(catalog)@ == old(catalog)@ && (
                    (e == StorageError::MissingReference && !has_modlist_id(old(catalog)@.modlists, self.id))
                    || (e == StorageError::UniqueViolation && has_modlist_id(old(catalog)@.modlists, self.id)
                        && old(catalog)@.has_modlist_filename(self.filename@)
                        && old(catalog)@.modlists[old(catalog)@.modlist_filename_index(self.filename@)].id != self.id)),
            },
    {
        let i = match catalog.find_modlist_id(self.id) {
            Some(i) => i,
            None => return Err(StorageError::MissingReference),
        };
        match catalog.find_modlist_filename(self.filename.as_str()) {
            Some(k) => {
                if k != i {
                    return Err(StorageError::UniqueViolation);
                }
            },
            None => {},
        }
        proof {
            let c = catalog@;
            assert forall|k: int| 0 <= k < c.modlists.len() && k != i implies (#[trigger] c.modlists[k]).filename
                != self.filename@ by {
                if c.modlists[k].filename == self.filename@ {
                    assert(c.has_modlist_filename(self.filename@));
                }
            }
        }
        catalog.set_modlist_at(i, self.clone());
        Ok(())
    }

    /// Flips `muted` of the cataloged modlist with this identifier; nothing
    /// changes when there is none.
    pub fn toggle_muted(&self, catalog: &mut Catalog)
        requires
            old(catalog).wf(),
        ensures
            final(catalog).wf(),
            has_modlist_id(old(catalog)@.modlists, self.id) ==> ({
                let i = old(catalog)@.modlist_id_index(self.id);
                final(catalog)@ == old(catalog)@.with_modlist_at(
                    i,
                    ModlistView { muted: !old(catalog)@.modlists[i].muted, ..old(catalog)@.modlists[i] },
                )
            }),
            !has_modlist_id(old(catalog)@.modlists, self.id) ==> final(catalog)@ == old(catalog)@,
    {
        match catalog.find_modlist_id(self.id) {
            Some(i) => {
                let mut m = catalog.modlists[i].clone();
                m.muted = !m.muted;
                proof {
                    let c = catalog@;
                    assert forall|k: int| 0 <= k < c.modlists.len() && k != i implies (#[trigger] c.modlists[k]).filename
                        != m.filename@ by {
                        assert(c.modlists[i as int].filename == m.filename@);
                    }
                }
                catalog.set_modlist_at(i, m);
            },
            None => {},
        }
    }
}

impl ModlistEgg {
    /// Adds a modlist with these fields under the next identifier, not muted.
    /// Fails, changing nothing, when a modlist has this file name or no
    /// identifier is left.
    pub fn create(&self, catalog: &mut Catalog) -> (r: Result<Modlist, StorageError>)
        requires
            old(catalog).wf(),
        ensures
            final(catalog).wf(),
            match r {
                Ok(m) => !old(catalog)@.has_modlist_filename(self.filename@)
                    && old(catalog)@.next_modlist_id < u64::MAX
                    && final(catalog)@ == old(catalog)@.with_new_modlist(
                        self.filename@, self.name@, self.version@, self.size, self.xxhash64@, self.available)
                    && m@ == final(catalog)@.modlists.last(),
                Err(e) => final(catalog)@ == old(catalog)@ && (
                    (e == StorageError::UniqueViolation && old(catalog)@.has_modlist_filename(self.filename@))
                    || (e == StorageError::IdsExhausted && !old(catalog)@.has_modlist_filename(self.filename@)
                        && old(catalog)@.next_modlist_id == u64::MAX)),
            },
    {
        if catalog.find_modlist_filename(self.filename.as_str()).is_some() {
            return Err(StorageError::UniqueViolation);
        }
        if catalog.next_modlist_id == u64::MAX {
            return Err(StorageError::IdsExhausted);
        }
        let m = Modlist {
            id: catalog.next_modlist_id,
            filename: self.filename.clone(),
            name: self.name.clone(),
            version: self.version.clone(),
            size: self.size,
            xxhash64: self.xxhash64.clone(),
            available: self.available,
            muted: false,
        };
        catalog.push_modlist(m.clone());
        Ok(m)
    }
}

} // verus!
