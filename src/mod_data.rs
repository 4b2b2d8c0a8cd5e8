//! Mods: content-addressed items, identified by hash and size.

use vstd::prelude::*;
use crate::archive_state::{clone_opt, opt_view};
use crate::catalog::{
    first_match, has_mod_id, lemma_first_match_step, lemma_first_match_whole, Catalog, CatalogView, StorageError,
};

verus! {

/// A mod as mathematical values.
pub struct ModView {
    pub id: u64,
    pub disk_filename: Option<Seq<char>>,
    pub size: u64,
    pub hash: Seq<char>,
    pub lost_forever: bool,
}

#[derive(Debug)]
pub struct Mod {
    pub id: u64,
    /// The name of the file that holds the content, once it is stored.
    pub disk_filename: Option<String>,
    pub size: u64,
    pub xxhash64: String,
    pub lost_forever: bool,
}

/// The fields of a mod that is yet to be added to the catalog.
#[derive(Debug)]
pub struct ModEgg {
    pub disk_filename: Option<String>,
    pub size: u64,
    pub xxhash64: String,
}

#[derive(Debug, Clone, Copy, PartialEq, Eq, Structural)]
pub enum ToggleLostForeverError {
    /// A mod whose content is stored cannot be lost.
    ModHasDiskFilename,
}

impl ToggleLostForeverError {
    pub fn message(&self) -> (r: String)
        ensures
            r@ == "Cannot mark mod as lost forever when disk_filename is set"@,
    {
        match self {
            ToggleLostForeverError::ModHasDiskFilename => String::from_str(
                "Cannot mark mod as lost forever when disk_filename is set",
            ),
        }
    }
}

impl View for Mod {
    type V = ModView;

    open spec fn view(&self) -> ModView {
        ModView {
            id: self.id,
            disk_filename: opt_view(self.disk_filename),
            size: self.size,
            hash: self.xxhash64@,
            lost_forever: self.lost_forever,
        }
    }
}

impl Clone for Mod {
    fn clone(&self) -> (r: Self)
        ensures
            r == *self,
    {
        Mod {
            id: self.id,
            disk_filename: clone_opt(&self.disk_filename),
            size: self.size,
            xxhash64: self.xxhash64.clone(),
            lost_forever: self.lost_forever,
        }
    }
}

pub open spec fn opt_mod_view(r: Option<Mod>) -> Option<ModView> {
    match r {
        Some(m) => Some(m@),
        None => None,
    }
}

impl CatalogView {
    /// Whether a mod with this content identity is cataloged.
    pub open spec fn has_mod_key(self, hash: Seq<char>, size: u64) -> bool {
        exists|i: int| 0 <= i < self.mods.len() && #[trigger] self.mods[i].hash == hash && self.mods[i].size == size
    }

    /// The position of the mod with this content identity.
    pub open spec fn mod_key_index(self, hash: Seq<char>, size: u64) -> int {
        choose|i: int| 0 <= i < self.mods.len() && #[trigger] self.mods[i].hash == hash && self.mods[i].size == size
    }

    /// Whether a cataloged mod has this hash under another size.
    pub open spec fn has_size_conflict(self, hash: Seq<char>, size: u64) -> bool {
        exists|i: int| 0 <= i < self.mods.len() && #[trigger] self.mods[i].hash == hash && self.mods[i].size != size
    }

    /// The catalog with the mod at `i` stored under `name`.
    pub open spec fn with_mod_stored(self, i: int, name: Seq<char>) -> CatalogView {
        CatalogView {
            mods: self.mods.update(i, ModView { disk_filename: Some(name), lost_forever: false, ..self.mods[i] }),
            ..self
        }
    }

    /// The catalog with a new mod appended under the next identifier.
    pub open spec fn with_new_mod(self, disk_filename: Option<Seq<char>>, size: u64, hash: Seq<char>) -> CatalogView {
        CatalogView {
            mods: self.mods.push(ModView { id: self.next_mod_id, disk_filename, size, hash, lost_forever: false }),
            next_mod_id: (self.next_mod_id + 1) as u64,
            ..self
        }
    }

    /// The position of the mod with identifier `id`.
    pub open spec fn mod_id_index(self, id: u64) -> int {
        choose|i: int| 0 <= i < self.mods.len() && #[trigger] self.mods[i].id == id
    }
}

impl Catalog {
    /// The position of the mod with this content identity, if there is one.
    pub(crate) fn find_mod_key(&self, hash: &str, size: u64) -> (r: Option<usize>)
        requires
            self.wf(),
        ensures
            match r {
                Some(i) => i < self@.mods.len() && self@.mods[i as int].hash == hash@
                    && self@.mods[i as int].size == size && self@.mod_key_index(hash@, size) == i,
                None => !self@.has_mod_key(hash@, size),
            },
    {
        let key = hash.to_owned();
        let mut i: usize = 0;
        while i < self.mods.len()
            invariant
                self.wf(),
                i <= self.mods@.len(),
                key@ == hash@,
                forall|k: int| 0 <= k < i ==> !(#[trigger] self@.mods[k].hash == hash@ && self@.mods[k].size == size),
            decreases self.mods@.len() - i,
        {
            if self.mods[i].size == size && self.mods[i].xxhash64 == key {
                assert(self@.mods[i as int].hash == hash@);
                let ghost j = self@.mod_key_index(hash@, size);
                assert(self@.mods[j].hash == hash@ && self@.mods[j].size == size);
                assert(j == i) by {
                    if j != i {
                        assert(self@.mods[j].hash == self@.mods[i as int].hash);
                    }
                }
                return Some(i);
            }
            i = i + 1;
        }
        None
    }

    /// Whether a mod has this hash under another size.
    pub(crate) fn find_size_conflict(&self, hash: &str, size: u64) -> (r: bool)
        ensures
            r == self@.has_size_conflict(hash@, size),
    {
        let key = hash.to_owned();
        let mut i: usize = 0;
        while i < self.mods.len()
            invariant
                i <= self.mods@.len(),
                key@ == hash@,
                forall|k: int| 0 <= k < i ==> !(#[trigger] self@.mods[k].hash == hash@ && self@.mods[k].size != size),
            decreases self.mods@.len() - i,
        {
            if self.mods[i].size != size && self.mods[i].xxhash64 == key {
                assert(self@.mods[i as int].hash == hash@);
                return true;
            }
            i = i + 1;
        }
        false
    }

    /// The position of the mod with identifier `id`, if there is one.
    pub(crate) fn find_mod_id(&self, id: u64) -> (r: Option<usize>)
        requires
            self.wf(),
        ensures
            match r {
                Some(i) => i < self@.mods.len() && self@.mods[i as int].id == id && self@.mod_id_index(id) == i,
                None => !has_mod_id(self@.mods, id),
            },
    {
        let mut i: usize = 0;
        while i < self.mods.len()
            invariant
                self.wf(),
                i <= self.mods@.len(),
                forall|k: int| 0 <= k < i ==> (#[trigger] self@.mods[k]).id != id,
            decreases self.mods@.len() - i,
        {
            if self.mods[i].id == id {
                assert(self@.mods[i as int].id == id);
                let ghost j = self@.mod_id_index(id);
                assert(self@.mods[j].id == id);
                assert(j == i) by {
                    if j != i {
                        assert(self@.mods[j].id == self@.mods[i as int].id);
                    }
                }
                return Some(i);
            }
            i = i + 1;
        }
        None
    }
}


/// Storing the content of a cataloged mod keeps the catalog well formed.
pub proof fn lemma_mod_stored_wf(c: CatalogView, i: int, name: Seq<char>)
    requires
        c.wf(),
        0 <= i < c.mods.len(),
    ensures
        c.with_mod_stored(i, name).wf(),
{
    let d = c.with_mod_stored(i, name);
    assert forall|k: int| 0 <= k < d.associations.len() implies has_mod_id(
        d.mods,
        #[trigger] d.associations[k].mod_id,
    ) by {
        let w = choose|w: int| 0 <= w < c.mods.len() && (#[trigger] c.mods[w]).id == c.associations[k].mod_id;
        assert(d.mods[w].id == c.mods[w].id);
    }
}

/// Appending a mod whose identity is new keeps the catalog well formed.
pub proof fn lemma_new_mod_wf(c: CatalogView, disk_filename: Option<Seq<char>>, size: u64, hash: Seq<char>)
    requires
        c.wf(),
        !c.has_mod_key(hash, size),
        c.next_mod_id < u64::MAX,
    ensures
        c.with_new_mod(disk_filename, size, hash).wf(),
{
    let d = c.with_new_mod(disk_filename, size, hash);
    let n = c.mods.len() as int;
    assert forall|i: int, j: int|
        0 <= i < d.mods.len() && 0 <= j < d.mods.len() && i != j implies !(
        #[trigger] d.mods[i].hash == #[trigger] d.mods[j].hash && d.mods[i].size == d.mods[j].size) by {
        if i == n {
            if d.mods[j].hash == hash && d.mods[j].size == size {
                assert(c.mods[j].hash == hash);
            }
        } else if j == n {
            if d.mods[i].hash == hash && d.mods[i].size == size {
                assert(c.mods[i].hash == hash);
            }
        } else {
            assert(d.mods[i] == c.mods[i] && d.mods[j] == c.mods[j]);
        }
    }
    assert forall|i: int, j: int|
        0 <= i < d.mods.len() && 0 <= j < d.mods.len() && i != j implies #[trigger] d.mods[i].id
        != #[trigger] d.mods[j].id by {
        if i == n {
            assert(c.mods[j].id < c.next_mod_id);
        } else if j == n {
            assert(c.mods[i].id < c.next_mod_id);
        } else {
            assert(d.mods[i] == c.mods[i] && d.mods[j] == c.mods[j]);
        }
    }
    assert forall|k: int| 0 <= k < d.associations.len() implies has_mod_id(
        d.mods,
        #[trigger] d.associations[k].mod_id,
    ) by {
        let w = choose|w: int| 0 <= w < c.mods.len() && (#[trigger] c.mods[w]).id == c.associations[k].mod_id;
        assert(d.mods[w].id == c.mods[w].id);
    }
}

pub open spec fn hash_is(hash: Seq<char>) -> spec_fn(ModView) -> bool {
    |m: ModView| m.hash == hash
}

pub open spec fn stored_as(name: Seq<char>) -> spec_fn(ModView) -> bool {
    |m: ModView| m.disk_filename == Some(name)
}

impl Mod {
    /// The first cataloged mod with this hash.
    pub fn get_by_hash(hash: &str, catalog: &Catalog) -> (r: Option<Mod>)
        ensures
            opt_mod_view(r) == first_match(catalog@.mods, hash_is(hash@)),
    {
        let key = hash.to_owned();
        let mut i: usize = 0;
        proof {
            lemma_first_match_whole(catalog@.mods, hash_is(hash@));
        }
        while i < catalog.mods.len()
            invariant
                i <= catalog.mods@.len(),
                key@ == hash@,
                first_match(catalog@.mods, hash_is(hash@)) == first_match(
                    catalog@.mods.subrange(i as int, catalog@.mods.len() as int),
                    hash_is(hash@),
                ),
            decreases catalog.mods@.len() - i,
        {
            proof {
                lemma_first_match_step(catalog@.mods, hash_is(hash@), i as int);
            }
            if catalog.mods[i].xxhash64 == key {
                return Some(catalog.mods[i].clone());
            }
            i = i + 1;
        }
        proof {
            lemma_first_match_whole(catalog@.mods, hash_is(hash@));
        }
        None
    }

    /// The first cataloged mod whose content is stored as `disk_filename`.
    pub fn get_by_disk_filename(disk_filename: &str, catalog: &Catalog) -> (r: Option<Mod>)
        ensures
            opt_mod_view(r) == first_match(catalog@.mods, stored_as(disk_filename@)),
    {
        let key = disk_filename.to_owned();
        let mut i: usize = 0;
        proof {
            lemma_first_match_whole(catalog@.mods, stored_as(disk_filename@));
        }
        while i < catalog.mods.len()
            invariant
                i <= catalog.mods@.len(),
                key@ == disk_filename@,
                first_match(catalog@.mods, stored_as(disk_filename@)) == first_match(
                    catalog@.mods.subrange(i as int, catalog@.mods.len() as int),
                    stored_as(disk_filename@),
                ),
            decreases catalog.mods@.len() - i,
        {
            proof {
                lemma_first_match_step(catalog@.mods, stored_as(disk_filename@), i as int);
            }
            let hit = match &catalog.mods[i].disk_filename {
                Some(f) => *f == key,
                None => false,
            };
            if hit {
                return Some(catalog.mods[i].clone());
            }
            i = i + 1;
        }
        proof {
            lemma_first_match_whole(catalog@.mods, stored_as(disk_filename@));
        }
        None
    }

    /// The mod with this content identity.
    pub fn get_by_size_and_hash(size: u64, hash: &str, catalog: &Catalog) -> (r: Option<Mod>)
        requires
            catalog.wf(),
        ensures
            match r {
                Some(m) => catalog@.has_mod_key(hash@, size) && m@ == catalog@.mods[catalog@.mod_key_index(hash@, size)],
                None => !catalog@.has_mod_key(hash@, size),
            },
    {
        match catalog.find_mod_key(hash, size) {
            Some(i) => Some(catalog.mods[i].clone()),
            None => None,
        }
    }

    pub fn get_by_id(id: u64, catalog: &Catalog) -> (r: Option<Mod>)
        requires
            catalog.wf(),
        ensures
            match r {
                Some(m) => has_mod_id(catalog@.mods, id) && m@ == catalog@.mods[catalog@.mod_id_index(id)],
                None => !has_mod_id(catalog@.mods, id),
            },
    {
        match catalog.find_mod_id(id) {
            Some(i) => Some(catalog.mods[i].clone()),
            None => None,
        }
    }

    pub fn is_available(&self) -> (r: bool)
        ensures
            r == (self.disk_filename is Some),
    {
        self.disk_filename.is_some()
    }

    /// Records that the content of the mod with this mod's identifier is now
    /// stored in `disk_filename`, which always clears `lost_forever`. Nothing
    /// changes when no such mod is cataloged.
    pub fn set_disk_filename(&self, disk_filename: &str, catalog: &mut Catalog)
        requires
            old(catalog).wf(),
        ensures
            final(catalog).wf(),
            has_mod_id(old(catalog)@.mods, self.id) ==> final(catalog)@ == old(catalog)@.with_mod_stored(
                old(catalog)@.mod_id_index(self.id),
                disk_filename@,
            ),
            !has_mod_id(old(catalog)@.mods, self.id) ==> final(catalog)@ == old(catalog)@,
            forall|k: int|
                0 <= k < final(catalog)@.mods.len() && (#[trigger] final(catalog)@.mods[k]).id == self.id
                    ==> !final(catalog)@.mods[k].lost_forever && final(catalog)@.mods[k].disk_filename
                    == Some(disk_filename@),
    {
        match catalog.find_mod_id(self.id) {
            Some(i) => {
                catalog.store_mod_at(i, disk_filename);
            },
            None => {},
        }
    }

    /// Flips `lost_forever` of the cataloged mod with this identifier. Fails,
    /// changing nothing, when this mod or the cataloged one has its content
    /// stored. Nothing changes when no such mod is cataloged.
    pub fn toggle_lost_forever(&self, catalog: &mut Catalog) -> (r: Result<(), ToggleLostForeverError>)
        requires
            old(catalog).wf(),
        ensures
            final(catalog).wf(),
            r is Err <==> (self.disk_filename is Some || (has_mod_id(old(catalog)@.mods, self.id)
                && old(catalog)@.mods[old(catalog)@.mod_id_index(self.id)].disk_filename is Some)),
            r is Err ==> final(catalog)@ == old(catalog)@,
            r is Ok && has_mod_id(old(catalog)@.mods, self.id) ==> ({
                let i = old(catalog)@.mod_id_index(self.id);
                final(catalog)@ == CatalogView {
                    mods: old(catalog)@.mods.update(
                        i,
                        ModView { lost_forever: !old(catalog)@.mods[i].lost_forever, ..old(catalog)@.mods[i] },
                    ),
                    ..old(catalog)@
                }
            }),
            r is Ok && !has_mod_id(old(catalog)@.mods, self.id) ==> final(catalog)@ == old(catalog)@,
    {
        if self.disk_filename.is_some() {
            return Err(ToggleLostForeverError::ModHasDiskFilename);
        }
        match catalog.find_mod_id(self.id) {
            Some(i) => {
                if catalog.mods[i].disk_filename.is_some() {
                    return Err(ToggleLostForeverError::ModHasDiskFilename);
                }
                let ghost c = catalog@;
                let flipped = !catalog.mods[i].lost_forever;
                catalog.mods[i].lost_forever = flipped;
                proof {
                    let d = catalog@;
                    assert(d.mods =~= c.mods.update(
                        i as int,
                        ModView { lost_forever: !c.mods[i as int].lost_forever, ..c.mods[i as int] },
                    ));
                    assert(d.modlists =~= c.modlists);
                    assert(d.associations =~= c.associations);
                    assert forall|k: int| 0 <= k < d.associations.len() implies has_mod_id(
                        d.mods,
                        #[trigger] d.associations[k].mod_id,
                    ) by {
                        let w = choose|w: int| 0 <= w < c.mods.len() && (#[trigger] c.mods[w]).id == c.associations[k].mod_id;
                        assert(d.mods[w].id == c.mods[w].id);
                    }
                }
                Ok(())
            },
            None => Ok(()),
        }
    }
}

impl Mod {
    /// Writes this mod over the cataloged one with the same identifier.
    /// Fails, changing nothing, when there is none, when this mod is lost
    /// forever although its content is stored, or when another mod has the
    /// same hash and size.
    pub fn update(&self, catalog: &mut Catalog) -> (r: Result<(), StorageError>)
        requires
            old(catalog).wf(),
        ensures
            final(catalog).wf(),
            match r {
                Ok(()) => has_mod_id(old(catalog)@.mods, self.id) && final(catalog)@ == CatalogView {
                    mods: old(catalog)@.mods.update(old(catalog)@.mod_id_index(self.id), self@),
                    ..old(catalog)@
                },
                Err(e) => final(catalog)@ == old(catalog)@ && (
                    (e == StorageError::MissingReference && !has_mod_id(old(catalog)@.mods, self.id))
                    || (e == StorageError::LostWithFile && has_mod_id(old(catalog)@.mods, self.id)
                        && self.lost_forever && self.disk_filename is Some)
                    || (e == StorageError::UniqueViolation && has_mod_id(old(catalog)@.mods, self.id)
                        && !(self.lost_forever && self.disk_filename is Some)
                        && old(catalog)@.has_mod_key(self.xxhash64@, self.size)
                        && old(catalog)@.mods[old(catalog)@.mod_key_index(self.xxhash64@, self.size)].id != self.id)),
            },
    {
        let i = match catalog.find_mod_id(self.id) {
            Some(i) => i,
            None => return Err(StorageError::MissingReference),
        };
        if self.lost_forever && self.disk_filename.is_some() {
            return Err(StorageError::LostWithFile);
        }
        match catalog.find_mod_key(self.xxhash64.as_str(), self.size) {
            Some(k) => {
                if k != i {
                    return Err(StorageError::UniqueViolation);
                }
            },
            None => {},
        }
        let ghost c = catalog@;
        catalog.mods[i] = self.clone();
        proof {
            let d = catalog@;
            assert(d.mods =~= c.mods.update(i as int, self@));
            assert(d.modlists =~= c.modlists);
            assert(d.associations =~= c.associations);
            assert forall|a: int, b: int|
                0 <= a < d.mods.len() && 0 <= b < d.mods.len() && a != b implies !(
                #[trigger] d.mods[a].hash == #[trigger] d.mods[b].hash && d.mods[a].size == d.mods[b].size) by {
                if a == i && d.mods[b].hash == self.xxhash64@ && d.mods[b].size == self.size {
                    assert(c.mods[b].hash == self.xxhash64@);
                } else if b == i && d.mods[a].hash == self.xxhash64@ && d.mods[a].size == self.size {
                    assert(c.mods[a].hash == self.xxhash64@);
                } else if a != i && b != i {
                    assert(d.mods[a] == c.mods[a] && d.mods[b] == c.mods[b]);
                }
            }
            assert forall|a: int, b: int|
                0 <= a < d.mods.len() && 0 <= b < d.mods.len() && a != b implies #[trigger] d.mods[a].id
                != #[trigger] d.mods[b].id by {
                assert(d.mods[a].id == c.mods[a].id && d.mods[b].id == c.mods[b].id);
            }
            assert forall|k: int| 0 <= k < d.associations.len() implies has_mod_id(
                d.mods,
                #[trigger] d.associations[k].mod_id,
            ) by {
                let w = choose|w: int| 0 <= w < c.mods.len() && (#[trigger] c.mods[w]).id == c.associations[k].mod_id;
                assert(d.mods[w].id == c.mods[w].id);
            }
        }
        Ok(())
    }
}

impl ModEgg {
    /// Adds a mod with these fields under the next identifier. Fails,
    /// changing nothing, when a mod with the same hash and size is cataloged
    /// or no identifier is left.
    pub fn create(&self, catalog: &mut Catalog) -> (r: Result<Mod, StorageError>)
        requires
            old(catalog).wf(),
        ensures
            final(catalog).wf(),
            match r {
                Ok(m) => !old(catalog)@.has_mod_key(self.xxhash64@, self.size)
                    && old(catalog)@.next_mod_id < u64::MAX
                    && final(catalog)@ == old(catalog)@.with_new_mod(opt_view(self.disk_filename), self.size, self.xxhash64@)
                    && m@ == final(catalog)@.mods.last(),
                Err(e) => final(catalog)@ == old(catalog)@ && (
                    (e == StorageError::UniqueViolation && old(catalog)@.has_mod_key(self.xxhash64@, self.size))
                    || (e == StorageError::IdsExhausted && !old(catalog)@.has_mod_key(self.xxhash64@, self.size)
                        && old(catalog)@.next_mod_id == u64::MAX)),
            },
    {
        if catalog.find_mod_key(self.xxhash64.as_str(), self.size).is_some() {
            return Err(StorageError::UniqueViolation);
        }
        if catalog.next_mod_id == u64::MAX {
            return Err(StorageError::IdsExhausted);
        }
        let m = Mod {
            id: catalog.next_mod_id,
            disk_filename: clone_opt(&self.disk_filename),
            size: self.size,
            xxhash64: self.xxhash64.clone(),
            lost_forever: false,
        };
        catalog.push_mod(m.clone());
        Ok(m)
    }
}

impl Catalog {
    /// Stores the content of the mod at position `i` under `name`.
    pub(crate) fn store_mod_at(&mut self, i: usize, name: &str)
        requires
            old(self).wf(),
            i < old(self)@.mods.len(),
        ensures
            final(self).wf(),
            final(self)@ == old(self)@.with_mod_stored(i as int, name@),
    {
        let ghost c = self@;
        self.mods[i].disk_filename = Some(name.to_owned());
        self.mods[i].lost_forever = false;
        proof {
            let d = self@;
            assert(d.mods =~= c.with_mod_stored(i as int, name@).mods);
            assert(d.modlists =~= c.modlists);
            assert(d.associations =~= c.associations);
            lemma_mod_stored_wf(c, i as int, name@);
        }
    }

    /// Appends a mod that carries the next identifier and a new identity.
    pub(crate) fn push_mod(&mut self, m: Mod)
        requires
            old(self).wf(),
            !old(self)@.has_mod_key(m.xxhash64@, m.size),
            old(self)@.next_mod_id < u64::MAX,
            m.id == old(self)@.next_mod_id,
            !m.lost_forever,
        ensures
            final(self).wf(),
            final(self)@ == old(self)@.with_new_mod(opt_view(m.disk_filename), m.size, m.xxhash64@),
    {
        let ghost c = self@;
        let ghost mv = m@;
        self.mods.push(m);
        self.next_mod_id = self.next_mod_id + 1;
        proof {
            let d = self@;
            assert(d.mods =~= c.with_new_mod(mv.disk_filename, mv.size, mv.hash).mods);
            assert(d.modlists =~= c.modlists);
            assert(d.associations =~= c.associations);
            lemma_new_mod_wf(c, mv.disk_filename, mv.size, mv.hash);
        }
    }
}

} // verus!
