//! How one modlist's manifest refers to one mod.

use vstd::prelude::*;
use crate::archive_state::{clone_opt, opt_view, ArchiveState};
use crate::catalog::{has_mod_id, has_modlist_id, Catalog, CatalogView, StorageError};

verus! {

/// An association as mathematical values.
pub struct AssociationView {
    pub modlist_id: u64,
    pub mod_id: u64,
    pub source: ArchiveState,
    pub filename: Seq<char>,
    pub name: Option<Seq<char>>,
    pub version: Option<Seq<char>>,
}

#[derive(Debug)]
pub struct ModAssociation {
    pub modlist_id: u64,
    pub mod_id: u64,
    pub source: ArchiveState,
    pub filename: String,
    pub name: Option<String>,
    pub version: Option<String>,
}

impl View for ModAssociation {
    type V = AssociationView;

    open spec fn view(&self) -> AssociationView {
        AssociationView {
            modlist_id: self.modlist_id,
            mod_id: self.mod_id,
            source: self.source,
            filename: self.filename@,
            name: opt_view(self.name),
            version: opt_view(self.version),
        }
    }
}


/// The fields of an association that is yet to be added to the catalog.
#[derive(Debug)]
pub struct ModAssociationEgg {
    pub modlist_id: u64,
    pub mod_id: u64,
    pub source: ArchiveState,
    pub filename: String,
    pub name: Option<String>,
    pub version: Option<String>,
}

impl Clone for ModAssociation {
    fn clone(&self) -> (r: Self)
        ensures
            r == *self,
    {
        ModAssociation {
            modlist_id: self.modlist_id,
            mod_id: self.mod_id,
            source: self.source.clone(),
            filename: self.filename.clone(),
            name: clone_opt(&self.name),
            version: clone_opt(&self.version),
        }
    }
}

impl CatalogView {
    pub open spec fn has_association(self, modlist_id: u64, mod_id: u64) -> bool {
        exists|i: int|
            0 <= i < self.associations.len() && #[trigger] self.associations[i].modlist_id == modlist_id
                && self.associations[i].mod_id == mod_id
    }

    pub open spec fn association_index(self, modlist_id: u64, mod_id: u64) -> int {
        choose|i: int|
            0 <= i < self.associations.len() && #[trigger] self.associations[i].modlist_id == modlist_id
                && self.associations[i].mod_id == mod_id
    }

    /// The catalog with `a` written over the association of the same modlist
    /// and mod, or appended when there is none.
    pub open spec fn with_association(self, a: AssociationView) -> CatalogView {
        if self.has_association(a.modlist_id, a.mod_id) {
            CatalogView {
                associations: self.associations.update(self.association_index(a.modlist_id, a.mod_id), a),
                ..self
            }
        } else {
            CatalogView { associations: self.associations.push(a), ..self }
        }
    }

    /// The catalog without the association at position `i`.
    pub open spec fn without_association_at(self, i: int) -> CatalogView {
        CatalogView { associations: self.associations.remove(i), ..self }
    }
}

/// Writing an association between cataloged rows keeps the catalog well
/// formed.
pub proof fn lemma_association_wf(c: CatalogView, a: AssociationView)
    requires
        c.wf(),
        has_modlist_id(c.modlists, a.modlist_id),
        has_mod_id(c.mods, a.mod_id),
    ensures
        c.with_association(a).wf(),
{
    let d = c.with_association(a);
    if c.has_association(a.modlist_id, a.mod_id) {
        let j = c.association_index(a.modlist_id, a.mod_id);
        assert forall|x: int, y: int|
            0 <= x < d.associations.len() && 0 <= y < d.associations.len() && x != y implies !(
            #[trigger] d.associations[x].modlist_id == #[trigger] d.associations[y].modlist_id
                && d.associations[x].mod_id == d.associations[y].mod_id) by {
            if x == j {
                assert(c.associations[y] == d.associations[y]);
                assert(c.associations[j].modlist_id == c.associations[y].modlist_id ==> c.associations[j].mod_id
                    != c.associations[y].mod_id);
            } else if y == j {
                assert(c.associations[x] == d.associations[x]);
                assert(c.associations[j].modlist_id == c.associations[x].modlist_id ==> c.associations[j].mod_id
                    != c.associations[x].mod_id);
            } else {
                assert(c.associations[x] == d.associations[x] && c.associations[y] == d.associations[y]);
            }
        }
        assert forall|k: int| 0 <= k < d.associations.len() implies has_modlist_id(
            d.modlists,
            (#[trigger] d.associations[k]).modlist_id,
        ) && has_mod_id(d.mods, d.associations[k].mod_id) by {
            if k != j {
                assert(c.associations[k] == d.associations[k]);
            }
        }
    } else {
        let n = c.associations.len() as int;
        assert forall|x: int, y: int|
            0 <= x < d.associations.len() && 0 <= y < d.associations.len() && x != y implies !(
            #[trigger] d.associations[x].modlist_id == #[trigger] d.associations[y].modlist_id
                && d.associations[x].mod_id == d.associations[y].mod_id) by {
            if x == n {
                assert(c.associations[y] == d.associations[y]);
                if d.associations[x].modlist_id == d.associations[y].modlist_id && d.associations[x].mod_id
                    == d.associations[y].mod_id {
                    assert(c.associations[y].modlist_id == a.modlist_id);
                }
            } else if y == n {
                assert(c.associations[x] == d.associations[x]);
                if d.associations[x].modlist_id == d.associations[y].modlist_id && d.associations[x].mod_id
                    == d.associations[y].mod_id {
                    assert(c.associations[x].modlist_id == a.modlist_id);
                }
            } else {
                assert(c.associations[x] == d.associations[x] && c.associations[y] == d.associations[y]);
            }
        }
        assert forall|k: int| 0 <= k < d.associations.len() implies has_modlist_id(
            d.modlists,
            (#[trigger] d.associations[k]).modlist_id,
        ) && has_mod_id(d.mods, d.associations[k].mod_id) by {
            if k != n {
                assert(c.associations[k] == d.associations[k]);
            }
        }
    }
}

/// Removing an association keeps the catalog well formed.
pub proof fn lemma_association_removed_wf(c: CatalogView, i: int)
    requires
        c.wf(),
        0 <= i < c.associations.len(),
    ensures
        c.without_association_at(i).wf(),
{
    let d = c.without_association_at(i);
    assert forall|k: int| 0 <= k < d.associations.len() implies d.associations[k] == c.associations[if k < i {
        k
    } else {
        k + 1
    }] by {}
    assert forall|x: int, y: int|
        0 <= x < d.associations.len() && 0 <= y < d.associations.len() && x != y implies !(
        #[trigger] d.associations[x].modlist_id == #[trigger] d.associations[y].modlist_id
            && d.associations[x].mod_id == d.associations[y].mod_id) by {
        let x1 = if x < i { x } else { x + 1 };
        let y1 = if y < i { y } else { y + 1 };
        assert(d.associations[x] == c.associations[x1] && d.associations[y] == c.associations[y1]);
    }
    assert forall|k: int| 0 <= k < d.associations.len() implies has_modlist_id(
        d.modlists,
        (#[trigger] d.associations[k]).modlist_id,
    ) && has_mod_id(d.mods, d.associations[k].mod_id) by {
        let k1 = if k < i { k } else { k + 1 };
        assert(d.associations[k] == c.associations[k1]);
    }
}

impl Catalog {
    /// The position of the association of this modlist and mod, if any.
    pub(crate) fn find_association(&self, modlist_id: u64, mod_id: u64) -> (r: Option<usize>)
        requires
            self.wf(),
        ensures
            match r {
                Some(i) => i < self@.associations.len() && self@.associations[i as int].modlist_id == modlist_id
                    && self@.associations[i as int].mod_id == mod_id
                    && self@.association_index(modlist_id, mod_id) == i,
                None => !self@.has_association(modlist_id, mod_id),
            },
    {
        let mut i: usize = 0;
        while i < self.associations.len()
            invariant
                self.wf(),
                i <= self.associations@.len(),
                forall|k: int|
                    0 <= k < i ==> !(#[trigger] self@.associations[k].modlist_id == modlist_id
                        && self@.associations[k].mod_id == mod_id),
            decreases self.associations@.len() - i,
        {
            if self.associations[i].modlist_id == modlist_id && self.associations[i].mod_id == mod_id {
                assert(self@.associations[i as int].modlist_id == modlist_id);
                let ghost j = self@.association_index(modlist_id, mod_id);
                assert(self@.associations[j].modlist_id == modlist_id);
                assert(j == i) by {
                    if j != i {
                        assert(self@.associations[j].modlist_id == self@.associations[i as int].modlist_id);
                    }
                }
                return Some(i);
            }
            i = i + 1;
        }
        None
    }

    /// Writes `a` over the association of the same modlist and mod, or
    /// appends it.
    pub(crate) fn upsert_association(&mut self, a: ModAssociation)
        requires
            old(self).wf(),
            has_modlist_id(old(self)@.modlists, a.modlist_id),
            has_mod_id(old(self)@.mods, a.mod_id),
        ensures
            final(self).wf(),
            final(self)@ == old(self)@.with_association(a@),
    {
        let ghost c = self@;
        let ghost av = a@;
        match self.find_association(a.modlist_id, a.mod_id) {
            Some(i) => {
                self.associations[i] = a;
            },
            None => {
                self.associations.push(a);
            },
        }
        proof {
            let d = self@;
            assert(d.associations =~= c.with_association(av).associations);
            assert(d.mods =~= c.mods);
            assert(d.modlists =~= c.modlists);
            lemma_association_wf(c, av);
        }
    }
}

impl ModAssociation {
    pub fn get_by_modlist_and_mod(modlist_id: u64, mod_id: u64, catalog: &Catalog) -> (r: Option<ModAssociation>)
        requires
            catalog.wf(),
        ensures
            match r {
                Some(a) => catalog@.has_association(modlist_id, mod_id)
                    && a@ == catalog@.associations[catalog@.association_index(modlist_id, mod_id)],
                None => !catalog@.has_association(modlist_id, mod_id),
            },
    {
        match catalog.find_association(modlist_id, mod_id) {
            Some(i) => Some(catalog.associations[i].clone()),
            None => None,
        }
    }

    /// Writes this association over the one of the same modlist and mod, or
    /// adds it. Fails, changing nothing, when the modlist or the mod is not
    /// cataloged.
    pub fn update(&self, catalog: &mut Catalog) -> (r: Result<(), StorageError>)
        requires
            old(catalog).wf(),
        ensures
            final(catalog).wf(),
            r is Ok <==> has_modlist_id(old(catalog)@.modlists, self.modlist_id) && has_mod_id(
                old(catalog)@.mods,
                self.mod_id,
            ),
            r is Ok ==> final(catalog)@ == old(catalog)@.with_association(self@),
            r matches Err(e) ==> e == StorageError::MissingReference && final(catalog)@ == old(catalog)@,
    {
        if catalog.find_modlist_id(self.modlist_id).is_none() || catalog.find_mod_id(self.mod_id).is_none() {
            return Err(StorageError::MissingReference);
        }
        catalog.upsert_association(self.clone());
        Ok(())
    }

    /// Removes the association of this modlist and mod, if there is one.
    pub fn delete(&self, catalog: &mut Catalog)
        requires
            old(catalog).wf(),
        ensures
            final(catalog).wf(),
            old(catalog)@.has_association(self.modlist_id, self.mod_id) ==> final(catalog)@
                == old(catalog)@.without_association_at(
                old(catalog)@.association_index(self.modlist_id, self.mod_id),
            ),
            !old(catalog)@.has_association(self.modlist_id, self.mod_id) ==> final(catalog)@ == old(catalog)@,
    {
        match catalog.find_association(self.modlist_id, self.mod_id) {
            Some(i) => {
                let ghost c = catalog@;
                catalog.associations.remove(i);
                proof {
                    let d = catalog@;
                    assert(d.associations =~= c.without_association_at(i as int).associations);
                    assert(d.mods =~= c.mods);
                    assert(d.modlists =~= c.modlists);
                    lemma_association_removed_wf(c, i as int);
                }
            },
            None => {},
        }
    }
}

impl ModAssociationEgg {
    /// Adds an association with these fields. Fails, changing nothing, when
    /// the modlist or the mod is not cataloged, or when they are already
    /// associated.
    pub fn create(&self, catalog: &mut Catalog) -> (r: Result<ModAssociation, StorageError>)
        requires
            old(catalog).wf(),
        ensures
            final(catalog).wf(),
            match r {
                Ok(a) => has_modlist_id(old(catalog)@.modlists, self.modlist_id)
                    && has_mod_id(old(catalog)@.mods, self.mod_id)
                    && !old(catalog)@.has_association(self.modlist_id, self.mod_id)
                    && a.modlist_id == self.modlist_id && a.mod_id == self.mod_id && a.source == self.source
                    && a.filename@ == self.filename@ && opt_view(a.name) == opt_view(self.name)
                    && opt_view(a.version) == opt_view(self.version)
                    && final(catalog)@ == old(catalog)@.with_association(a@),
                Err(e) => final(catalog)@ == old(catalog)@ && (
                    (e == StorageError::MissingReference && !(has_modlist_id(old(catalog)@.modlists, self.modlist_id)
                        && has_mod_id(old(catalog)@.mods, self.mod_id)))
                    || (e == StorageError::UniqueViolation && has_modlist_id(old(catalog)@.modlists, self.modlist_id)
                        && has_mod_id(old(catalog)@.mods, self.mod_id)
                        && old(catalog)@.has_association(self.modlist_id, self.mod_id))),
            },
    {
        if catalog.find_modlist_id(self.modlist_id).is_none() || catalog.find_mod_id(self.mod_id).is_none() {
            return Err(StorageError::MissingReference);
        }
        if catalog.find_association(self.modlist_id, self.mod_id).is_some() {
            return Err(StorageError::UniqueViolation);
        }
        let a = ModAssociation {
            modlist_id: self.modlist_id,
            mod_id: self.mod_id,
            source: self.source.clone(),
            filename: self.filename.clone(),
            name: clone_opt(&self.name),
            version: clone_opt(&self.version),
        };
        catalog.upsert_association(a.clone());
        Ok(a)
    }
}

} // verus!
