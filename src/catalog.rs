//! The catalog: mods, modlists and the associations between them, held
//! together with the uniqueness rules that every operation preserves.

use vstd::prelude::*;
use crate::mod_data::{Mod, ModView};
use crate::modlist::{Modlist, ModlistView};
use crate::mod_association::{AssociationView, ModAssociation};

verus! {

/// A failure of the store itself.
#[derive(Debug, Clone, Copy, PartialEq, Eq, Structural)]
pub enum StorageError {
    /// The row would break a uniqueness rule of the catalog.
    UniqueViolation,
    /// A mod would be lost forever while its content is stored.
    LostWithFile,
    /// A row refers to a mod or a modlist that the catalog does not hold.
    MissingReference,
    /// No identifier is left for a new row.
    IdsExhausted,
}

/// The catalog as mathematical values.
pub struct CatalogView {
    pub mods: Seq<ModView>,
    pub modlists: Seq<ModlistView>,
    pub associations: Seq<AssociationView>,
    pub next_mod_id: u64,
    pub next_modlist_id: u64,
}

/// The first element of `s` that satisfies `p`, if any.
pub open spec fn first_match<T>(s: Seq<T>, p: spec_fn(T) -> bool) -> Option<T>
    decreases s.len(),
{
    if s.len() == 0 {
        None
    } else if p(s[0]) {
        Some(s[0])
    } else {
        first_match(s.drop_first(), p)
    }
}

/// One step of a front-to-back search.
pub proof fn lemma_first_match_step<T>(s: Seq<T>, p: spec_fn(T) -> bool, i: int)
    requires
        0 <= i < s.len(),
    ensures
        first_match(s.subrange(i, s.len() as int), p) == if p(s[i]) {
            Some(s[i])
        } else {
            first_match(s.subrange(i + 1, s.len() as int), p)
        },
{
    let t = s.subrange(i, s.len() as int);
    assert(t[0] == s[i]);
    assert(t.drop_first() =~= s.subrange(i + 1, s.len() as int));
}

pub proof fn lemma_first_match_whole<T>(s: Seq<T>, p: spec_fn(T) -> bool)
    ensures
        first_match(s.subrange(0, s.len() as int), p) == first_match(s, p),
        first_match(s.subrange(s.len() as int, s.len() as int), p) == None::<T>,
{
    assert(s.subrange(0, s.len() as int) =~= s);
    assert(s.subrange(s.len() as int, s.len() as int).len() == 0);
}

/// When exactly one element satisfies `p`, the search finds it.
pub proof fn lemma_first_match_unique<T>(s: Seq<T>, p: spec_fn(T) -> bool, i: int)
    requires
        0 <= i < s.len(),
        p(s[i]),
        forall|k: int| 0 <= k < s.len() && k != i ==> !p(#[trigger] s[k]),
    ensures
        first_match(s, p) == Some(s[i]),
    decreases s.len(),
{
    if i > 0 {
        let t = s.drop_first();
        assert forall|k: int| 0 <= k < t.len() && k != i - 1 implies !p(#[trigger] t[k]) by {
            assert(t[k] == s[k + 1]);
        }
        lemma_first_match_unique(t, p, i - 1);
    }
}

/// One step of a front-to-back filter.
pub proof fn lemma_filter_step<T>(s: Seq<T>, p: spec_fn(T) -> bool, i: int)
    requires
        0 <= i < s.len(),
    ensures
        s.subrange(0, i + 1).filter(p) == if p(s[i]) {
            s.subrange(0, i).filter(p).push(s[i])
        } else {
            s.subrange(0, i).filter(p)
        },
{
    reveal(Seq::filter);
    let t = s.subrange(0, i + 1);
    assert(t.drop_last() =~= s.subrange(0, i));
    assert(t.last() == s[i]);
}

pub proof fn lemma_filter_ends<T>(s: Seq<T>, p: spec_fn(T) -> bool)
    ensures
        s.subrange(0, 0).filter(p) == Seq::<T>::empty(),
        s.subrange(0, s.len() as int).filter(p) == s.filter(p),
{
    reveal(Seq::filter);
    assert(s.subrange(0, 0) =~= Seq::<T>::empty());
    assert(s.subrange(0, s.len() as int) =~= s);
}

pub open spec fn has_mod_id(mods: Seq<ModView>, id: u64) -> bool {
    exists|k: int| 0 <= k < mods.len() && (#[trigger] mods[k]).id == id
}

pub open spec fn has_modlist_id(modlists: Seq<ModlistView>, id: u64) -> bool {
    exists|k: int| 0 <= k < modlists.len() && (#[trigger] modlists[k]).id == id
}

impl CatalogView {
    /// No two mods share their content identity (hash and size).
    pub open spec fn mod_keys_unique(self) -> bool {
        forall|i: int, j: int|
            0 <= i < self.mods.len() && 0 <= j < self.mods.len() && i != j ==> !(
            #[trigger] self.mods[i].hash == #[trigger] self.mods[j].hash && self.mods[i].size
                == self.mods[j].size)
    }

    /// No two modlists share a file name.
    pub open spec fn modlist_filenames_unique(self) -> bool {
        forall|i: int, j: int|
            0 <= i < self.modlists.len() && 0 <= j < self.modlists.len() && i != j
                ==> #[trigger] self.modlists[i].filename != #[trigger] self.modlists[j].filename
    }

    /// No two associations link the same modlist and mod.
    pub open spec fn association_keys_unique(self) -> bool {
        forall|i: int, j: int|
            0 <= i < self.associations.len() && 0 <= j < self.associations.len() && i != j ==> !(
            #[trigger] self.associations[i].modlist_id == #[trigger] self.associations[j].modlist_id
                && self.associations[i].mod_id == self.associations[j].mod_id)
    }

    pub open spec fn mod_ids_ok(self) -> bool {
        &&& forall|i: int, j: int|
            0 <= i < self.mods.len() && 0 <= j < self.mods.len() && i != j
                ==> #[trigger] self.mods[i].id != #[trigger] self.mods[j].id
        &&& forall|i: int| 0 <= i < self.mods.len() ==> #[trigger] self.mods[i].id < self.next_mod_id
    }

    pub open spec fn modlist_ids_ok(self) -> bool {
        &&& forall|i: int, j: int|
            0 <= i < self.modlists.len() && 0 <= j < self.modlists.len() && i != j
                ==> #[trigger] self.modlists[i].id != #[trigger] self.modlists[j].id
        &&& forall|i: int|
            0 <= i < self.modlists.len() ==> #[trigger] self.modlists[i].id < self.next_modlist_id
    }

    /// A mod is only ever lost forever while no file holds its content.
    pub open spec fn lost_mods_have_no_file(self) -> bool {
        forall|i: int|
            0 <= i < self.mods.len() && (#[trigger] self.mods[i]).lost_forever
                ==> self.mods[i].disk_filename is None
    }

    /// Every association links a modlist and a mod that the catalog holds.
    pub open spec fn associations_resolve(self) -> bool {
        forall|i: int|
            0 <= i < self.associations.len() ==> has_modlist_id(
                self.modlists,
                (#[trigger] self.associations[i]).modlist_id,
            ) && has_mod_id(self.mods, self.associations[i].mod_id)
    }

    pub open spec fn wf(self) -> bool {
        &&& self.mod_keys_unique()
        &&& self.modlist_filenames_unique()
        &&& self.association_keys_unique()
        &&& self.mod_ids_ok()
        &&& self.modlist_ids_ok()
        &&& self.lost_mods_have_no_file()
        &&& self.associations_resolve()
    }
}

/// The catalog. Its rows are kept in the order they were added; the
/// operations of this library require and preserve `wf`.
pub struct Catalog {
    pub mods: Vec<Mod>,
    pub modlists: Vec<Modlist>,
    pub associations: Vec<ModAssociation>,
    pub next_mod_id: u64,
    pub next_modlist_id: u64,
}

impl View for Catalog {
    type V = CatalogView;

    open spec fn view(&self) -> CatalogView {
        CatalogView {
            mods: self.mods@.map_values(|m: Mod| m@),
            modlists: self.modlists@.map_values(|m: Modlist| m@),
            associations: self.associations@.map_values(|a: ModAssociation| a@),
            next_mod_id: self.next_mod_id,
            next_modlist_id: self.next_modlist_id,
        }
    }
}

impl Catalog {
    pub open spec fn wf(&self) -> bool {
        self@.wf()
    }

    /// An empty catalog; the first identifiers handed out are 1.
    pub fn new() -> (r: Catalog)
        ensures
            r.wf(),
            r@.mods.len() == 0,
            r@.modlists.len() == 0,
            r@.associations.len() == 0,
            r@.next_mod_id == 1,
            r@.next_modlist_id == 1,
    {
        Catalog {
            mods: Vec::new(),
            modlists: Vec::new(),
            associations: Vec::new(),
            next_mod_id: 1,
            next_modlist_id: 1,
        }
    }
}

impl Clone for Catalog {
    fn clone(&self) -> (r: Self)
        ensures
            r@ == self@,
    {
        let r = Catalog {
            mods: self.mods.clone(),
            modlists: self.modlists.clone(),
            associations: self.associations.clone(),
            next_mod_id: self.next_mod_id,
            next_modlist_id: self.next_modlist_id,
        };
        proof {
            assert(r.mods@ =~= self.mods@);
            assert(r.modlists@ =~= self.modlists@);
            assert(r.associations@ =~= self.associations@);
        }
        r
    }
}

/// In a well-formed catalog no two mods share hash and size, and no two
/// modlists share a file name.
pub proof fn lemma_catalog_identities_unique(c: CatalogView)
    requires
        c.wf(),
    ensures
        forall|i: int, j: int|
            0 <= i < c.mods.len() && 0 <= j < c.mods.len() && i != j ==> !(#[trigger] c.mods[i].hash
                == #[trigger] c.mods[j].hash && c.mods[i].size == c.mods[j].size),
        forall|i: int, j: int|
            0 <= i < c.modlists.len() && 0 <= j < c.modlists.len() && i != j ==> #[trigger] c.modlists[i].filename
                != #[trigger] c.modlists[j].filename,
{
}

} // verus!
