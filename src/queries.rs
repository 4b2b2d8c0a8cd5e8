//! Read-only queries over the catalog, and the derived readiness of a
//! modlist. Lists keep the catalog's order.

use vstd::prelude::*;
use crate::catalog::{has_mod_id, has_modlist_id, lemma_filter_ends, lemma_filter_step, Catalog, CatalogView};
use crate::mod_association::{AssociationView, ModAssociation};
use crate::mod_data::{Mod, ModView};
use crate::modlist::{Modlist, ModlistView};

verus! {

pub open spec fn mod_views(s: Seq<Mod>) -> Seq<ModView> {
    s.map_values(|m: Mod| m@)
}

pub open spec fn modlist_views(s: Seq<Modlist>) -> Seq<ModlistView> {
    s.map_values(|m: Modlist| m@)
}

pub open spec fn association_views(s: Seq<ModAssociation>) -> Seq<AssociationView> {
    s.map_values(|a: ModAssociation| a@)
}

/// Whether a modlist is ready to install.
#[derive(Debug, Clone, Copy, PartialEq, Eq, Structural)]
pub enum ModlistStatus {
    /// Every associated mod is available (or there are none).
    Ready,
    /// Some associated mod is not available yet.
    MissingFiles,
    /// Some associated mod is lost forever.
    Uninstallable,
}

impl CatalogView {
    /// The mod with identifier `id`, if cataloged.
    pub open spec fn mod_by_id(self, id: u64) -> Option<ModView> {
        if has_mod_id(self.mods, id) {
            Some(self.mods[self.mod_id_index(id)])
        } else {
            None
        }
    }

    pub open spec fn mod_is_lost(self, id: u64) -> bool {
        self.mod_by_id(id) matches Some(m) && m.lost_forever
    }

    pub open spec fn mod_is_available(self, id: u64) -> bool {
        self.mod_by_id(id) matches Some(m) && m.disk_filename is Some
    }

    /// Whether some mod associated with modlist `id` is lost forever.
    pub open spec fn has_lost_mod(self, id: u64) -> bool {
        exists|k: int|
            0 <= k < self.associations.len() && (#[trigger] self.associations[k]).modlist_id == id
                && self.mod_is_lost(self.associations[k].mod_id)
    }

    /// Whether every mod associated with modlist `id` is available.
    pub open spec fn all_mods_available(self, id: u64) -> bool {
        forall|k: int|
            0 <= k < self.associations.len() && (#[trigger] self.associations[k]).modlist_id == id
                ==> self.mod_is_available(self.associations[k].mod_id)
    }

    /// The readiness of modlist `id`: a lost mod makes it uninstallable
    /// whatever else holds; otherwise it is ready when all its mods are
    /// available.
    pub open spec fn modlist_status(self, id: u64) -> ModlistStatus {
        if self.has_lost_mod(id) {
            ModlistStatus::Uninstallable
        } else if self.all_mods_available(id) {
            ModlistStatus::Ready
        } else {
            ModlistStatus::MissingFiles
        }
    }

    pub open spec fn links_available_mod_of(self, id: u64) -> spec_fn(AssociationView) -> bool {
        |a: AssociationView| a.modlist_id == id && self.mod_is_available(a.mod_id)
    }

    pub open spec fn mod_in_modlist(self, modlist_id: u64) -> spec_fn(ModView) -> bool {
        |m: ModView| self.has_association(modlist_id, m.id)
    }

    pub open spec fn modlist_with_mod(self, mod_id: u64) -> spec_fn(ModlistView) -> bool {
        |l: ModlistView| self.has_association(l.id, mod_id)
    }
}

pub open spec fn links_modlist(id: u64) -> spec_fn(AssociationView) -> bool {
    |a: AssociationView| a.modlist_id == id
}

pub open spec fn links_mod(id: u64) -> spec_fn(AssociationView) -> bool {
    |a: AssociationView| a.mod_id == id
}

pub open spec fn not_stored() -> spec_fn(ModView) -> bool {
    |m: ModView| m.disk_filename is None
}

pub open spec fn stored_as_other(name: Seq<char>, exclude_id: u64) -> spec_fn(ModView) -> bool {
    |m: ModView| m.disk_filename == Some(name) && m.id != exclude_id
}

pub open spec fn is_muted() -> spec_fn(ModlistView) -> bool {
    |l: ModlistView| l.muted
}


/// Whether the mod with identifier `id` is lost, and whether it is available.
fn mod_flags(catalog: &Catalog, id: u64) -> (r: (bool, bool))
    requires
        catalog.wf(),
    ensures
        r.0 == catalog@.mod_is_lost(id),
        r.1 == catalog@.mod_is_available(id),
{
    match catalog.find_mod_id(id) {
        Some(i) => (catalog.mods[i].lost_forever, catalog.mods[i].disk_filename.is_some()),
        None => (false, false),
    }
}

/// The associations that satisfy the test selected by `of_mod` and `id`
/// (links that modlist, links that mod, or links that modlist to an
/// available mod), in catalog order.
fn select_associations(catalog: &Catalog, id: u64, of_mod: bool, need_available: bool) -> (r: Vec<ModAssociation>)
    requires
        catalog.wf(),
        !(of_mod && need_available),
    ensures
        association_views(r@) == catalog@.associations.filter(
            if of_mod {
                links_mod(id)
            } else if need_available {
                catalog@.links_available_mod_of(id)
            } else {
                links_modlist(id)
            },
        ),
{
    let ghost p = if of_mod {
        links_mod(id)
    } else if need_available {
        catalog@.links_available_mod_of(id)
    } else {
        links_modlist(id)
    };
    let ghost s = catalog@.associations;
    let mut r: Vec<ModAssociation> = Vec::new();
    let mut i: usize = 0;
    proof {
        lemma_filter_ends(s, p);
    }
    while i < catalog.associations.len()
        invariant
            catalog.wf(),
            s == catalog@.associations,
            p == (if of_mod {
                links_mod(id)
            } else if need_available {
                catalog@.links_available_mod_of(id)
            } else {
                links_modlist(id)
            }),
            i <= s.len(),
            association_views(r@) == s.subrange(0, i as int).filter(p),
        decreases s.len() - i,
    {
        proof {
            lemma_filter_step(s, p, i as int);
        }
        let a = &catalog.associations[i];
        let hit = if of_mod {
            a.mod_id == id
        } else if need_available {
            a.modlist_id == id && mod_flags(catalog, a.mod_id).1
        } else {
            a.modlist_id == id
        };
        if hit {
            let ghost before = r@;
            r.push(a.clone());
            proof {
                assert(association_views(r@) =~= association_views(before).push(s[i as int]));
            }
        }
        i = i + 1;
    }
    proof {
        lemma_filter_ends(s, p);
    }
    r
}

impl ModAssociation {
    /// The associations of modlist `modlist_id`.
    pub fn get_by_modlist_id(modlist_id: u64, catalog: &Catalog) -> (r: Vec<ModAssociation>)
        requires
            catalog.wf(),
        ensures
            association_views(r@) == catalog@.associations.filter(links_modlist(modlist_id)),
    {
        select_associations(catalog, modlist_id, false, false)
    }

    /// The associations of mod `mod_id`.
    pub fn get_by_mod_id(mod_id: u64, catalog: &Catalog) -> (r: Vec<ModAssociation>)
        requires
            catalog.wf(),
        ensures
            association_views(r@) == catalog@.associations.filter(links_mod(mod_id)),
    {
        select_associations(catalog, mod_id, true, false)
    }

    pub fn get_mod_with_association(&self, catalog: &Catalog) -> (r: Option<Mod>)
        requires
            catalog.wf(),
        ensures
            match r {
                Some(m) => has_mod_id(catalog@.mods, self.mod_id) && m@ == catalog@.mods[catalog@.mod_id_index(self.mod_id)],
                None => !has_mod_id(catalog@.mods, self.mod_id),
            },
    {
        Mod::get_by_id(self.mod_id, catalog)
    }

    pub fn get_modlist_with_association(&self, catalog: &Catalog) -> (r: Option<Modlist>)
        requires
            catalog.wf(),
        ensures
            match r {
                Some(m) => has_modlist_id(catalog@.modlists, self.modlist_id)
                    && m@ == catalog@.modlists[catalog@.modlist_id_index(self.modlist_id)],
                None => !has_modlist_id(catalog@.modlists, self.modlist_id),
            },
    {
        Modlist::get_by_id(self.modlist_id, catalog)
    }
}

impl Modlist {
    pub fn get_mod_associations(&self, catalog: &Catalog) -> (r: Vec<ModAssociation>)
        requires
            catalog.wf(),
        ensures
            association_views(r@) == catalog@.associations.filter(links_modlist(self.id)),
    {
        ModAssociation::get_by_modlist_id(self.id, catalog)
    }

    /// The number of mods associated with this modlist.
    pub fn count_mods_total(&self, catalog: &Catalog) -> (r: u64)
        requires
            catalog.wf(),
        ensures
            r as int == catalog@.associations.filter(links_modlist(self.id)).len(),
    {
        let v = select_associations(catalog, self.id, false, false);
        v.len() as u64
    }

    /// The number of available mods associated with this modlist.
    pub fn count_mods_available(&self, catalog: &Catalog) -> (r: u64)
        requires
            catalog.wf(),
        ensures
            r as int == catalog@.associations.filter(catalog@.links_available_mod_of(self.id)).len(),
    {
        let v = select_associations(catalog, self.id, false, true);
        v.len() as u64
    }

    /// Whether some mod associated with this modlist is lost forever.
    pub fn has_lost_forever_mods(&self, catalog: &Catalog) -> (r: bool)
        requires
            catalog.wf(),
        ensures
            r == catalog@.has_lost_mod(self.id),
    {
        let mut i: usize = 0;
        while i < catalog.associations.len()
            invariant
                catalog.wf(),
                i <= catalog@.associations.len(),
                forall|k: int|
                    0 <= k < i && (#[trigger] catalog@.associations[k]).modlist_id == self.id ==> !catalog@.mod_is_lost(
                        catalog@.associations[k].mod_id,
                    ),
            decreases catalog@.associations.len() - i,
        {
            let a = &catalog.associations[i];
            if a.modlist_id == self.id && mod_flags(catalog, a.mod_id).0 {
                assert(catalog@.associations[i as int].modlist_id == self.id);
                return true;
            }
            i = i + 1;
        }
        false
    }

    /// Whether every mod associated with this modlist is available.
    fn all_mods_available(&self, catalog: &Catalog) -> (r: bool)
        requires
            catalog.wf(),
        ensures
            r == catalog@.all_mods_available(self.id),
    {
        let mut i: usize = 0;
        while i < catalog.associations.len()
            invariant
                catalog.wf(),
                i <= catalog@.associations.len(),
                forall|k: int|
                    0 <= k < i && (#[trigger] catalog@.associations[k]).modlist_id == self.id ==> catalog@.mod_is_available(
                        catalog@.associations[k].mod_id,
                    ),
            decreases catalog@.associations.len() - i,
        {
            let a = &catalog.associations[i];
            if a.modlist_id == self.id && !mod_flags(catalog, a.mod_id).1 {
                assert(catalog@.associations[i as int].modlist_id == self.id);
                return false;
            }
            i = i + 1;
        }
        true
    }

    /// The readiness of this modlist.
    pub fn status(&self, catalog: &Catalog) -> (r: ModlistStatus)
        requires
            catalog.wf(),
        ensures
            r == catalog@.modlist_status(self.id),
    {
        if self.has_lost_forever_mods(catalog) {
            ModlistStatus::Uninstallable
        } else if self.all_mods_available(catalog) {
            ModlistStatus::Ready
        } else {
            ModlistStatus::MissingFiles
        }
    }
}

/// Which mods a listing keeps.
enum ModSelection<'a> {
    Unstored,
    StoredAsOther(&'a str, u64),
    InModlist(u64),
}

impl<'a> ModSelection<'a> {
    spec fn pred(&self, c: CatalogView) -> spec_fn(ModView) -> bool {
        match self {
            ModSelection::Unstored => not_stored(),
            ModSelection::StoredAsOther(name, exclude_id) => stored_as_other(name@, *exclude_id),
            ModSelection::InModlist(id) => c.mod_in_modlist(*id),
        }
    }
}

fn select_mods(catalog: &Catalog, sel: ModSelection) -> (r: Vec<Mod>)
    requires
        catalog.wf(),
    ensures
        mod_views(r@) == catalog@.mods.filter(sel.pred(catalog@)),
{
    let ghost p = sel.pred(catalog@);
    let ghost s = catalog@.mods;
    let mut r: Vec<Mod> = Vec::new();
    let mut i: usize = 0;
    proof {
        lemma_filter_ends(s, p);
    }
    while i < catalog.mods.len()
        invariant
            catalog.wf(),
            s == catalog@.mods,
            p == sel.pred(catalog@),
            i <= s.len(),
            mod_views(r@) == s.subrange(0, i as int).filter(p),
        decreases s.len() - i,
    {
        proof {
            lemma_filter_step(s, p, i as int);
        }
        let m = &catalog.mods[i];
        let hit = match sel {
            ModSelection::Unstored => m.disk_filename.is_none(),
            ModSelection::StoredAsOther(name, exclude_id) => m.id != exclude_id && match &m.disk_filename {
                Some(f) => *f == name.to_owned(),
                None => false,
            },
            ModSelection::InModlist(id) => catalog.find_association(id, m.id).is_some(),
        };
        if hit {
            let ghost before = r@;
            r.push(m.clone());
            proof {
                assert(mod_views(r@) =~= mod_views(before).push(s[i as int]));
            }
        }
        i = i + 1;
    }
    proof {
        lemma_filter_ends(s, p);
    }
    r
}

/// Which modlists a listing keeps.
enum ModlistSelection {
    Muted,
    WithMod(u64),
}

impl ModlistSelection {
    spec fn pred(&self, c: CatalogView) -> spec_fn(ModlistView) -> bool {
        match self {
            ModlistSelection::Muted => is_muted(),
            ModlistSelection::WithMod(id) => c.modlist_with_mod(*id),
        }
    }
}

fn select_modlists(catalog: &Catalog, sel: ModlistSelection) -> (r: Vec<Modlist>)
    requires
        catalog.wf(),
    ensures
        modlist_views(r@) == catalog@.modlists.filter(sel.pred(catalog@)),
{
    let ghost p = sel.pred(catalog@);
    let ghost s = catalog@.modlists;
    let mut r: Vec<Modlist> = Vec::new();
    let mut i: usize = 0;
    proof {
        lemma_filter_ends(s, p);
    }
    while i < catalog.modlists.len()
        invariant
            catalog.wf(),
            s == catalog@.modlists,
            p == sel.pred(catalog@),
            i <= s.len(),
            modlist_views(r@) == s.subrange(0, i as int).filter(p),
        decreases s.len() - i,
    {
        proof {
            lemma_filter_step(s, p, i as int);
        }
        let l = &catalog.modlists[i];
        let hit = match sel {
            ModlistSelection::Muted => l.muted,
            ModlistSelection::WithMod(id) => catalog.find_association(l.id, id).is_some(),
        };
        if hit {
            let ghost before = r@;
            r.push(l.clone());
            proof {
                assert(modlist_views(r@) =~= modlist_views(before).push(s[i as int]));
            }
        }
        i = i + 1;
    }
    proof {
        lemma_filter_ends(s, p);
    }
    r
}

impl Mod {
    /// Every cataloged mod.
    pub fn get_all(catalog: &Catalog) -> (r: Vec<Mod>)
        ensures
            mod_views(r@) == catalog@.mods,
    {
        let r = catalog.mods.clone();
        proof {
            assert(mod_views(r@) =~= catalog@.mods);
        }
        r
    }

    /// The mods whose content is not stored.
    pub fn get_unavailable(catalog: &Catalog) -> (r: Vec<Mod>)
        requires
            catalog.wf(),
        ensures
            mod_views(r@) == catalog@.mods.filter(not_stored()),
    {
        select_mods(catalog, ModSelection::Unstored)
    }

    /// The mods associated with modlist `modlist_id`.
    pub fn get_by_modlist_id(modlist_id: u64, catalog: &Catalog) -> (r: Vec<Mod>)
        requires
            catalog.wf(),
        ensures
            mod_views(r@) == catalog@.mods.filter(catalog@.mod_in_modlist(modlist_id)),
    {
        select_mods(catalog, ModSelection::InModlist(modlist_id))
    }

    /// The mods other than `exclude_id` whose content is stored as
    /// `disk_filename`.
    pub fn get_by_disk_filename_all(disk_filename: &str, exclude_id: u64, catalog: &Catalog) -> (r: Vec<Mod>)
        requires
            catalog.wf(),
        ensures
            mod_views(r@) == catalog@.mods.filter(stored_as_other(disk_filename@, exclude_id)),
    {
        select_mods(catalog, ModSelection::StoredAsOther(disk_filename, exclude_id))
    }

    /// The modlists this mod is associated with.
    pub fn get_associated_modlists(&self, catalog: &Catalog) -> (r: Vec<Modlist>)
        requires
            catalog.wf(),
        ensures
            modlist_views(r@) == catalog@.modlists.filter(catalog@.modlist_with_mod(self.id)),
    {
        select_modlists(catalog, ModlistSelection::WithMod(self.id))
    }

    /// The number of modlists this mod is associated with.
    pub fn count_modlists(&self, catalog: &Catalog) -> (r: u64)
        requires
            catalog.wf(),
        ensures
            r as int == catalog@.associations.filter(links_mod(self.id)).len(),
    {
        let v = select_associations(catalog, self.id, true, false);
        v.len() as u64
    }
}

impl Modlist {
    /// Every cataloged modlist.
    pub fn get_all(catalog: &Catalog) -> (r: Vec<Modlist>)
        ensures
            modlist_views(r@) == catalog@.modlists,
    {
        let r = catalog.modlists.clone();
        proof {
            assert(modlist_views(r@) =~= catalog@.modlists);
        }
        r
    }

    /// The muted modlists.
    pub fn get_muted(catalog: &Catalog) -> (r: Vec<Modlist>)
        requires
            catalog.wf(),
        ensures
            modlist_views(r@) == catalog@.modlists.filter(is_muted()),
    {
        select_modlists(catalog, ModlistSelection::Muted)
    }
}

/// A modlist that no mod is associated with is ready, and one with any mod
/// that is lost forever is uninstallable, whatever the other mods' state.
pub proof fn lemma_readiness_consistent(c: CatalogView, id: u64)
    ensures
        (forall|k: int| 0 <= k < c.associations.len() ==> (#[trigger] c.associations[k]).modlist_id != id)
            ==> c.modlist_status(id) == ModlistStatus::Ready,
        (exists|k: int|
            0 <= k < c.associations.len() && (#[trigger] c.associations[k]).modlist_id == id && c.mod_is_lost(
                c.associations[k].mod_id,
            )) ==> c.modlist_status(id) == ModlistStatus::Uninstallable,
{
}

} // verus!
