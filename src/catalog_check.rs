//! Building a catalog from stored rows, which are checked against the
//! catalog's rules first.

use vstd::prelude::*;
use crate::catalog::{has_mod_id, has_modlist_id, Catalog, CatalogView};
use crate::mod_association::ModAssociation;
use crate::mod_data::Mod;
use crate::modlist::Modlist;

verus! {

pub open spec fn mods_compatible(c: CatalogView, a: int, b: int) -> bool {
    !(c.mods[a].hash == c.mods[b].hash && c.mods[a].size == c.mods[b].size) && c.mods[a].id != c.mods[b].id
}

pub open spec fn modlists_compatible(c: CatalogView, a: int, b: int) -> bool {
    c.modlists[a].filename != c.modlists[b].filename && c.modlists[a].id != c.modlists[b].id
}

pub open spec fn associations_compatible(c: CatalogView, a: int, b: int) -> bool {
    !(c.associations[a].modlist_id == c.associations[b].modlist_id && c.associations[a].mod_id
        == c.associations[b].mod_id)
}

impl Catalog {
    fn contains_mod_id(&self, id: u64) -> (r: bool)
        ensures
            r == has_mod_id(self@.mods, id),
    {
        let mut i: usize = 0;
        while i < self.mods.len()
            invariant
                i <= self.mods@.len(),
                forall|k: int| 0 <= k < i ==> (#[trigger] self@.mods[k]).id != id,
            decreases self.mods@.len() - i,
        {
            if self.mods[i].id == id {
                assert(self@.mods[i as int].id == id);
                return true;
            }
            i = i + 1;
        }
        false
    }

    fn contains_modlist_id(&self, id: u64) -> (r: bool)
        ensures
            r == has_modlist_id(self@.modlists, id),
    {
        let mut i: usize = 0;
        while i < self.modlists.len()
            invariant
                i <= self.modlists@.len(),
                forall|k: int| 0 <= k < i ==> (#[trigger] self@.modlists[k]).id != id,
            decreases self.modlists@.len() - i,
        {
            if self.modlists[i].id == id {
                assert(self@.modlists[i as int].id == id);
                return true;
            }
            i = i + 1;
        }
        false
    }

    fn mods_ok(&self) -> (r: bool)
        ensures
            r == (self@.mod_keys_unique() && self@.mod_ids_ok() && self@.lost_mods_have_no_file()),
    {
        let ghost c = self@;
        let n = self.mods.len();
        let mut i: usize = 0;
        while i < n
            invariant
                c == self@,
                n == c.mods.len(),
                i <= n,
                forall|a: int, b: int| 0 <= a < i && 0 <= b < i && a != b ==> mods_compatible(c, a, b),
                forall|a: int| 0 <= a < i ==> (#[trigger] c.mods[a]).id < c.next_mod_id,
                forall|a: int| 0 <= a < i && (#[trigger] c.mods[a]).lost_forever ==> c.mods[a].disk_filename is None,
            decreases n - i,
        {
            let m = &self.mods[i];
            if m.id >= self.next_mod_id || (m.lost_forever && m.disk_filename.is_some()) {
                assert(c.mods[i as int].id >= c.next_mod_id || (c.mods[i as int].lost_forever
                    && c.mods[i as int].disk_filename is Some));
                return false;
            }
            let mut j: usize = 0;
            while j < i
                invariant
                    c == self@,
                    n == c.mods.len(),
                    i < n,
                    j <= i,
                    forall|b: int| 0 <= b < j ==> mods_compatible(c, i as int, b) && mods_compatible(c, b, i as int),
                decreases i - j,
            {
                let o = &self.mods[j];
                if (o.xxhash64 == self.mods[i].xxhash64 && o.size == self.mods[i].size) || o.id == self.mods[i].id {
                    assert(!mods_compatible(c, i as int, j as int));
                    assert(!c.mod_keys_unique() || !c.mod_ids_ok()) by {
                        if c.mods[i as int].id == c.mods[j as int].id {
                            assert(c.mods[i as int].id == c.mods[j as int].id);
                        } else {
                            assert(c.mods[i as int].hash == c.mods[j as int].hash);
                        }
                    }
                    return false;
                }
                j = j + 1;
            }
            assert forall|a: int, b: int| 0 <= a < i + 1 && 0 <= b < i + 1 && a != b implies mods_compatible(
                c,
                a,
                b,
            ) by {}
            i = i + 1;
        }
        proof {
            assert forall|a: int, b: int|
                0 <= a < c.mods.len() && 0 <= b < c.mods.len() && a != b implies !(#[trigger] c.mods[a].hash
                == #[trigger] c.mods[b].hash && c.mods[a].size == c.mods[b].size) by {
                assert(mods_compatible(c, a, b));
            }
            assert forall|a: int, b: int|
                0 <= a < c.mods.len() && 0 <= b < c.mods.len() && a != b implies #[trigger] c.mods[a].id
                != #[trigger] c.mods[b].id by {
                assert(mods_compatible(c, a, b));
            }
        }
        true
    }

    fn modlists_ok(&self) -> (r: bool)
        ensures
            r == (self@.modlist_filenames_unique() && self@.modlist_ids_ok()),
    {
        let ghost c = self@;
        let n = self.modlists.len();
        let mut i: usize = 0;
        while i < n
            invariant
                c == self@,
                n == c.modlists.len(),
                i <= n,
                forall|a: int, b: int| 0 <= a < i && 0 <= b < i && a != b ==> modlists_compatible(c, a, b),
                forall|a: int| 0 <= a < i ==> (#[trigger] c.modlists[a]).id < c.next_modlist_id,
            decreases n - i,
        {
            if self.modlists[i].id >= self.next_modlist_id {
                assert(c.modlists[i as int].id >= c.next_modlist_id);
                return false;
            }
            let mut j: usize = 0;
            while j < i
                invariant
                    c == self@,
                    n == c.modlists.len(),
                    i < n,
                    j <= i,
                    forall|b: int|
                        0 <= b < j ==> modlists_compatible(c, i as int, b) && modlists_compatible(c, b, i as int),
                decreases i - j,
            {
                if self.modlists[j].filename == self.modlists[i].filename || self.modlists[j].id == self.modlists[i].id {
                    assert(!c.modlist_filenames_unique() || !c.modlist_ids_ok()) by {
                        if c.modlists[i as int].id == c.modlists[j as int].id {
                            assert(c.modlists[i as int].id == c.modlists[j as int].id);
                        } else {
                            assert(c.modlists[i as int].filename == c.modlists[j as int].filename);
                        }
                    }
                    return false;
                }
                j = j + 1;
            }
            i = i + 1;
        }
        proof {
            assert forall|a: int, b: int|
                0 <= a < c.modlists.len() && 0 <= b < c.modlists.len() && a != b implies #[trigger] c.modlists[a].filename
                != #[trigger] c.modlists[b].filename by {
                assert(modlists_compatible(c, a, b));
            }
            assert forall|a: int, b: int|
                0 <= a < c.modlists.len() && 0 <= b < c.modlists.len() && a != b implies #[trigger] c.modlists[a].id
                != #[trigger] c.modlists[b].id by {
                assert(modlists_compatible(c, a, b));
            }
        }
        true
    }

    fn associations_ok(&self) -> (r: bool)
        ensures
            r == (self@.association_keys_unique() && self@.associations_resolve()),
    {
        let ghost c = self@;
        let n = self.associations.len();
        let mut i: usize = 0;
        while i < n
            invariant
                c == self@,
                n == c.associations.len(),
                i <= n,
                forall|a: int, b: int| 0 <= a < i && 0 <= b < i && a != b ==> associations_compatible(c, a, b),
                forall|a: int|
                    0 <= a < i ==> has_modlist_id(c.modlists, (#[trigger] c.associations[a]).modlist_id) && has_mod_id(
                        c.mods,
                        c.associations[a].mod_id,
                    ),
            decreases n - i,
        {
            if !self.contains_modlist_id(self.associations[i].modlist_id) || !self.contains_mod_id(
                self.associations[i].mod_id,
            ) {
                assert(!(has_modlist_id(c.modlists, c.associations[i as int].modlist_id) && has_mod_id(
                    c.mods,
                    c.associations[i as int].mod_id,
                )));
                return false;
            }
            let mut j: usize = 0;
            while j < i
                invariant
                    c == self@,
                    n == c.associations.len(),
                    i < n,
                    j <= i,
                    forall|b: int|
                        0 <= b < j ==> associations_compatible(c, i as int, b) && associations_compatible(
                            c,
                            b,
                            i as int,
                        ),
                decreases i - j,
            {
                if self.associations[j].modlist_id == self.associations[i].modlist_id && self.associations[j].mod_id
                    == self.associations[i].mod_id {
                    assert(c.associations[i as int].modlist_id == c.associations[j as int].modlist_id);
                    return false;
                }
                j = j + 1;
            }
            i = i + 1;
        }
        proof {
            assert forall|a: int, b: int|
                0 <= a < c.associations.len() && 0 <= b < c.associations.len() && a != b implies !(
                #[trigger] c.associations[a].modlist_id == #[trigger] c.associations[b].modlist_id
                    && c.associations[a].mod_id == c.associations[b].mod_id) by {
                assert(associations_compatible(c, a, b));
            }
        }
        true
    }

    /// Whether the catalog obeys its rules.
    pub fn is_well_formed(&self) -> (r: bool)
        ensures
            r == self.wf(),
    {
        self.mods_ok() && self.modlists_ok() && self.associations_ok()
    }

    /// A catalog of stored rows, whose next identifiers follow the largest
    /// ones given. `None` when the rows break a rule of the catalog or use
    /// the largest identifier.
    pub fn from_rows(mods: Vec<Mod>, modlists: Vec<Modlist>, associations: Vec<ModAssociation>) -> (r: Option<
        Catalog,
    >)
        ensures
            r matches Some(c) ==> c.wf() && c.mods@ == mods@ && c.modlists@ == modlists@ && c.associations@
                == associations@,
    {
        let mut next_mod_id: u64 = 1;
        let mut i: usize = 0;
        while i < mods.len()
            invariant
                i <= mods@.len(),
                next_mod_id >= 1,
                forall|k: int| 0 <= k < i ==> (#[trigger] mods@[k]).id < next_mod_id,
            decreases mods@.len() - i,
        {
            if mods[i].id == u64::MAX {
                return None;
            }
            if mods[i].id >= next_mod_id {
                next_mod_id = mods[i].id + 1;
            }
            i = i + 1;
        }
        let mut next_modlist_id: u64 = 1;
        let mut i: usize = 0;
        while i < modlists.len()
            invariant
                i <= modlists@.len(),
                next_modlist_id >= 1,
                forall|k: int| 0 <= k < i ==> (#[trigger] modlists@[k]).id < next_modlist_id,
            decreases modlists@.len() - i,
        {
            if modlists[i].id == u64::MAX {
                return None;
            }
            if modlists[i].id >= next_modlist_id {
                next_modlist_id = modlists[i].id + 1;
            }
            i = i + 1;
        }
        let c = Catalog { mods, modlists, associations, next_mod_id, next_modlist_id };
        if c.is_well_formed() {
            Some(c)
        } else {
            None
        }
    }
}

} // verus!
