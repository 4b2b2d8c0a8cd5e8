//! Merging verified uploads into the catalog. Each operation is one unit:
//! when it fails, the catalog is left as it was.

use vstd::prelude::*;
use crate::catalog::{
    first_match, has_mod_id, has_modlist_id, lemma_first_match_unique, Catalog, CatalogView, StorageError,
};
use crate::hash::content_hash_of;
use crate::mod_association::lemma_association_wf;
use crate::mod_data::{hash_is, lemma_mod_stored_wf, lemma_new_mod_wf, stored_as};
use crate::modlist::modlist_hash_is;
use crate::upload_validation::{upload_verdict, ArchiveType, UploadVerdict};
use crate::mod_association::{AssociationView, ModAssociation};
use crate::mod_data::{Mod, ModEgg};
use crate::modlist::{Modlist, ModlistView};
use crate::wabbajack::{Archive, WabbajackMetadata};

verus! {

#[derive(Debug, Clone, Copy, PartialEq, Eq, Structural)]
pub enum IngestError {
    /// A cataloged mod has the same hash under another size.
    IntegrityError,
    StorageError(StorageError),
}

/// The catalog after content `hash` of `size` bytes was stored as `name`.
pub open spec fn content_ingested(c: CatalogView, name: Seq<char>, hash: Seq<char>, size: u64) -> Result<
    CatalogView,
    IngestError,
> {
    if c.has_size_conflict(hash, size) {
        Err(IngestError::IntegrityError)
    } else if c.has_mod_key(hash, size) {
        Ok(c.with_mod_stored(c.mod_key_index(hash, size), name))
    } else if c.next_mod_id == u64::MAX {
        Err(IngestError::StorageError(StorageError::IdsExhausted))
    } else {
        Ok(c.with_new_mod(Some(name), size, hash))
    }
}

/// Records that content with this hash and size is now stored as
/// `filename`: the matching mod becomes available (and is no longer lost),
/// or a new available mod is added.
pub fn ingest_mod(filename: &str, hash: &str, size: u64, catalog: &mut Catalog) -> (r: Result<(), IngestError>)
    requires
        old(catalog).wf(),
    ensures
        final(catalog).wf(),
        match r {
            Ok(()) => content_ingested(old(catalog)@, filename@, hash@, size) == Ok::<CatalogView, IngestError>(final(catalog)@),
            Err(e) => content_ingested(old(catalog)@, filename@, hash@, size) == Err::<CatalogView, IngestError>(e)
                && final(catalog)@ == old(catalog)@,
        },
{
    if catalog.find_size_conflict(hash, size) {
        return Err(IngestError::IntegrityError);
    }
    match catalog.find_mod_key(hash, size) {
        Some(i) => {
            catalog.store_mod_at(i, filename);
            Ok(())
        },
        None => {
            let egg = ModEgg { disk_filename: Some(filename.to_owned()), size, xxhash64: hash.to_owned() };
            match egg.create(catalog) {
                Ok(_) => Ok(()),
                Err(e) => Err(IngestError::StorageError(e)),
            }
        },
    }
}

/// How modlist `modlist_id` refers to mod `mod_id` through entry `a`.
pub open spec fn entry_association(modlist_id: u64, mod_id: u64, a: Archive) -> AssociationView {
    AssociationView {
        modlist_id,
        mod_id,
        source: a.state,
        filename: a.filename@,
        name: a.state.spec_name(),
        version: a.state.spec_version(),
    }
}

/// The catalog after manifest entry `a` of modlist `modlist_id` was merged:
/// the mod with the entry's hash and size is found or added (without a
/// stored file), and the association is written over any earlier one.
pub open spec fn entry_merged(c: CatalogView, modlist_id: u64, a: Archive) -> Result<CatalogView, IngestError> {
    if c.has_size_conflict(a.hash@, a.size) {
        Err(IngestError::IntegrityError)
    } else if c.has_mod_key(a.hash@, a.size) {
        Ok(c.with_association(entry_association(modlist_id, c.mods[c.mod_key_index(a.hash@, a.size)].id, a)))
    } else if c.next_mod_id == u64::MAX {
        Err(IngestError::StorageError(StorageError::IdsExhausted))
    } else {
        Ok(c.with_new_mod(None, a.size, a.hash@).with_association(entry_association(modlist_id, c.next_mod_id, a)))
    }
}

/// The entries merged one after the other, stopping at the first failure.
pub open spec fn entries_merged(c: CatalogView, modlist_id: u64, entries: Seq<Archive>) -> Result<
    CatalogView,
    IngestError,
>
    decreases entries.len(),
{
    if entries.len() == 0 {
        Ok(c)
    } else {
        match entries_merged(c, modlist_id, entries.drop_last()) {
            Ok(c1) => entry_merged(c1, modlist_id, entries.last()),
            Err(e) => Err(e),
        }
    }
}

/// The catalog after package `filename` with this hash, size and manifest
/// was stored: the modlist of that file name is updated in place (keeping
/// `muted`) or added, made available, and every manifest entry is merged.
pub open spec fn package_ingested(
    c: CatalogView,
    filename: Seq<char>,
    hash: Seq<char>,
    size: u64,
    name: Seq<char>,
    version: Seq<char>,
    entries: Seq<Archive>,
) -> Result<CatalogView, IngestError> {
    if c.has_modlist_filename(filename) {
        let i = c.modlist_filename_index(filename);
        entries_merged(
            c.with_modlist_at(i, ModlistView { name, version, size, hash, available: true, ..c.modlists[i] }),
            c.modlists[i].id,
            entries,
        )
    } else if c.next_modlist_id == u64::MAX {
        Err(IngestError::StorageError(StorageError::IdsExhausted))
    } else {
        entries_merged(c.with_new_modlist(filename, name, version, size, hash, true), c.next_modlist_id, entries)
    }
}

/// Once a prefix of the entries fails, the whole merge fails the same way.
proof fn lemma_merge_failure_persists(c: CatalogView, modlist_id: u64, entries: Seq<Archive>, k: int, e: IngestError)
    requires
        0 <= k <= entries.len(),
        entries_merged(c, modlist_id, entries.subrange(0, k)) == Err::<CatalogView, IngestError>(e),
    ensures
        entries_merged(c, modlist_id, entries) == Err::<CatalogView, IngestError>(e),
    decreases entries.len(),
{
    if entries.len() == k {
        assert(entries.subrange(0, k) =~= entries);
    } else {
        assert(entries.drop_last().subrange(0, k) =~= entries.subrange(0, k));
        lemma_merge_failure_persists(c, modlist_id, entries.drop_last(), k, e);
    }
}

fn merge_entry(modlist_id: u64, a: &Archive, catalog: &mut Catalog) -> (r: Result<(), IngestError>)
    requires
        old(catalog).wf(),
        has_modlist_id(old(catalog)@.modlists, modlist_id),
    ensures
        match r {
            Ok(()) => entry_merged(old(catalog)@, modlist_id, *a) == Ok::<CatalogView, IngestError>(final(catalog)@)
                && final(catalog).wf(),
            Err(e) => entry_merged(old(catalog)@, modlist_id, *a) == Err::<CatalogView, IngestError>(e),
        },
{
    if catalog.find_size_conflict(a.hash.as_str(), a.size) {
        return Err(IngestError::IntegrityError);
    }
    let mod_id = match catalog.find_mod_key(a.hash.as_str(), a.size) {
        Some(i) => catalog.mods[i].id,
        None => {
            if catalog.next_mod_id == u64::MAX {
                return Err(IngestError::StorageError(StorageError::IdsExhausted));
            }
            let id = catalog.next_mod_id;
            let m = Mod { id, disk_filename: None, size: a.size, xxhash64: a.hash.clone(), lost_forever: false };
            catalog.push_mod(m);
            proof {
                let last = catalog@.mods.len() - 1;
                assert(catalog@.mods[last].id == id);
            }
            id
        },
    };
    let assoc = ModAssociation {
        modlist_id,
        mod_id,
        source: a.state.clone(),
        filename: a.filename.clone(),
        name: a.name(),
        version: a.version(),
    };
    catalog.upsert_association(assoc);
    Ok(())
}

/// Records that package `filename`, with this hash, size and manifest, is
/// now stored. On failure the catalog is left as it was.
pub fn ingest_modlist(
    filename: &str,
    hash: &str,
    size: u64,
    metadata: &WabbajackMetadata,
    catalog: &mut Catalog,
) -> (r: Result<(), IngestError>)
    requires
        old(catalog).wf(),
    ensures
        final(catalog).wf(),
        match r {
            Ok(()) => package_ingested(
                old(catalog)@,
                filename@,
                hash@,
                size,
                metadata.name@,
                metadata.version@,
                metadata.archives@,
            ) == Ok::<CatalogView, IngestError>(final(catalog)@),
            Err(e) => package_ingested(
                old(catalog)@,
                filename@,
                hash@,
                size,
                metadata.name@,
                metadata.version@,
                metadata.archives@,
            ) == Err::<CatalogView, IngestError>(e) && final(catalog)@ == old(catalog)@,
        },
{
    let ghost c = catalog@;
    let mut work = catalog.clone();
    let modlist_id = match work.find_modlist_filename(filename) {
        Some(i) => {
            let id = work.modlists[i].id;
            let updated = Modlist {
                id,
                filename: filename.to_owned(),
                name: metadata.name.clone(),
                version: metadata.version.clone(),
                size,
                xxhash64: hash.to_owned(),
                available: true,
                muted: work.modlists[i].muted,
            };
            proof {
                assert forall|k: int| 0 <= k < c.modlists.len() && k != i implies (#[trigger] c.modlists[k]).filename
                    != filename@ by {
                    assert(c.modlists[i as int].filename == filename@);
                }
            }
            work.set_modlist_at(i, updated);
            proof {
                assert(work@.modlists[i as int].id == id);
            }
            id
        },
        None => {
            if work.next_modlist_id == u64::MAX {
                return Err(IngestError::StorageError(StorageError::IdsExhausted));
            }
            let id = work.next_modlist_id;
            let created = Modlist {
                id,
                filename: filename.to_owned(),
                name: metadata.name.clone(),
                version: metadata.version.clone(),
                size,
                xxhash64: hash.to_owned(),
                available: true,
                muted: false,
            };
            work.push_modlist(created);
            proof {
                let last = work@.modlists.len() - 1;
                assert(work@.modlists[last].id == id);
            }
            id
        },
    };
    let ghost start = work@;
    proof {
        assert(metadata.archives@.subrange(0, 0) =~= Seq::<Archive>::empty());
    }
    let mut k: usize = 0;
    while k < metadata.archives.len()
        invariant
            work.wf(),
            catalog@ == c,
            catalog.wf(),
            has_modlist_id(work@.modlists, modlist_id),
            k <= metadata.archives@.len(),
            package_ingested(c, filename@, hash@, size, metadata.name@, metadata.version@, metadata.archives@)
                == entries_merged(start, modlist_id, metadata.archives@),
            entries_merged(start, modlist_id, metadata.archives@.subrange(0, k as int)) == Ok::<
                CatalogView,
                IngestError,
            >(work@),
        decreases metadata.archives@.len() - k,
    {
        let ghost before = work@;
        proof {
            assert(metadata.archives@.subrange(0, k + 1).drop_last() =~= metadata.archives@.subrange(0, k as int));
        }
        match merge_entry(modlist_id, &metadata.archives[k], &mut work) {
            Ok(()) => {},
            Err(e) => {
                proof {
                    lemma_merge_failure_persists(start, modlist_id, metadata.archives@, k + 1, e);
                }
                return Err(e);
            },
        }
        k = k + 1;
    }
    proof {
        assert(metadata.archives@.subrange(0, k as int) =~= metadata.archives@);
    }
    *catalog = work;
    Ok(())
}

/// Merging an entry keeps the catalog well formed and its modlists as they
/// were.
pub proof fn lemma_entry_merged_wf(c: CatalogView, modlist_id: u64, a: Archive)
    requires
        c.wf(),
        has_modlist_id(c.modlists, modlist_id),
    ensures
        entry_merged(c, modlist_id, a) matches Ok(d) ==> d.wf() && d.modlists == c.modlists,
{
    if !c.has_size_conflict(a.hash@, a.size) {
        if c.has_mod_key(a.hash@, a.size) {
            let i = c.mod_key_index(a.hash@, a.size);
            assert(has_mod_id(c.mods, c.mods[i].id));
            lemma_association_wf(c, entry_association(modlist_id, c.mods[i].id, a));
        } else if c.next_mod_id < u64::MAX {
            let c1 = c.with_new_mod(None, a.size, a.hash@);
            lemma_new_mod_wf(c, None, a.size, a.hash@);
            assert(c1.mods[c.mods.len() as int].id == c.next_mod_id);
            assert(has_mod_id(c1.mods, c.next_mod_id));
            let w = choose|w: int| 0 <= w < c.modlists.len() && (#[trigger] c.modlists[w]).id == modlist_id;
            assert(c1.modlists[w].id == modlist_id);
            lemma_association_wf(c1, entry_association(modlist_id, c.next_mod_id, a));
        }
    }
}

/// Merging entries keeps the catalog well formed and its modlists as they
/// were.
pub proof fn lemma_entries_merged_wf(c: CatalogView, modlist_id: u64, entries: Seq<Archive>)
    requires
        c.wf(),
        has_modlist_id(c.modlists, modlist_id),
    ensures
        entries_merged(c, modlist_id, entries) matches Ok(d) ==> d.wf() && d.modlists == c.modlists,
    decreases entries.len(),
{
    if entries.len() > 0 {
        lemma_entries_merged_wf(c, modlist_id, entries.drop_last());
        if let Ok(c1) = entries_merged(c, modlist_id, entries.drop_last()) {
            lemma_entry_merged_wf(c1, modlist_id, entries.last());
        }
    }
}

/// Storing content always leaves its mod available and not lost.
pub proof fn lemma_ingest_clears_lost(c: CatalogView, name: Seq<char>, hash: Seq<char>, size: u64)
    requires
        c.wf(),
        content_ingested(c, name, hash, size) is Ok,
    ensures
        ({
            let d = content_ingested(c, name, hash, size)->Ok_0;
            &&& d.wf()
            &&& d.has_mod_key(hash, size)
            &&& d.mods[d.mod_key_index(hash, size)].disk_filename == Some(name)
            &&& !d.mods[d.mod_key_index(hash, size)].lost_forever
        }),
{
    let d = content_ingested(c, name, hash, size)->Ok_0;
    let i = if c.has_mod_key(hash, size) {
        let i = c.mod_key_index(hash, size);
        lemma_mod_stored_wf(c, i, name);
        i
    } else {
        lemma_new_mod_wf(c, Some(name), size, hash);
        c.mods.len() as int
    };
    assert(d.mods[i].hash == hash && d.mods[i].size == size);
    let j = d.mod_key_index(hash, size);
    assert(j == i) by {
        if j != i {
            assert(d.mods[j].hash == d.mods[i].hash);
        }
    }
}

/// Uploading content that was just stored under the same name is answered
/// `NotModified`, whether or not the file is seen on disk, provided no other
/// mod was stored under that name. Validation reads the catalog only, so
/// the second upload changes nothing.
pub proof fn lemma_mod_reupload_not_modified(
    c: CatalogView,
    name: Seq<char>,
    hash: Seq<char>,
    size: u64,
    on_disk: bool,
)
    requires
        c.wf(),
        content_ingested(c, name, hash, size) is Ok,
        forall|k: int|
            0 <= k < c.mods.len() && (#[trigger] c.mods[k]).disk_filename == Some(name) ==> c.mods[k].hash == hash
                && c.mods[k].size == size,
    ensures
        ({
            let d = content_ingested(c, name, hash, size)->Ok_0;
            upload_verdict(
                Some(hash),
                name,
                on_disk,
                <crate::mod_data::Mod as ArchiveType>::lookup_by_filename(d, name),
                <crate::mod_data::Mod as ArchiveType>::lookup_by_hash(d, hash),
            ) == UploadVerdict::NotModified
        }),
{
    let d = content_ingested(c, name, hash, size)->Ok_0;
    lemma_ingest_clears_lost(c, name, hash, size);
    let i = d.mod_key_index(hash, size);
    assert forall|k: int| 0 <= k < d.mods.len() && k != i implies !(hash_is(hash))(#[trigger] d.mods[k]) by {
        if d.mods[k].hash == hash {
            if k < c.mods.len() {
                assert(c.mods[k].hash == hash);
                if c.has_mod_key(hash, size) {
                    assert(d.mods[k] == c.mods[k]);
                }
            }
            assert(d.mods[k].size == size);
        }
    }
    lemma_first_match_unique(d.mods, hash_is(hash), i);
    assert forall|k: int| 0 <= k < d.mods.len() && k != i implies !(stored_as(name))(#[trigger] d.mods[k]) by {
        if d.mods[k].disk_filename == Some(name) {
            if k < c.mods.len() {
                if c.has_mod_key(hash, size) {
                    assert(d.mods[k] == c.mods[k]);
                }
                assert(c.mods[k].disk_filename == Some(name));
                assert(d.mods[k].hash == hash && d.mods[k].size == size);
            }
        }
    }
    lemma_first_match_unique(d.mods, stored_as(name), i);
}

/// Uploading a package that was just stored under the same name is answered
/// `NotModified`, provided no other modlist had its hash.
pub proof fn lemma_modlist_reupload_not_modified(
    c: CatalogView,
    filename: Seq<char>,
    hash: Seq<char>,
    size: u64,
    name: Seq<char>,
    version: Seq<char>,
    entries: Seq<Archive>,
    on_disk: bool,
)
    requires
        c.wf(),
        package_ingested(c, filename, hash, size, name, version, entries) is Ok,
        forall|k: int| 0 <= k < c.modlists.len() && (#[trigger] c.modlists[k]).hash == hash ==> c.modlists[k].filename == filename,
    ensures
        ({
            let d = package_ingested(c, filename, hash, size, name, version, entries)->Ok_0;
            upload_verdict(
                Some(hash),
                filename,
                on_disk,
                <crate::modlist::Modlist as ArchiveType>::lookup_by_filename(d, filename),
                <crate::modlist::Modlist as ArchiveType>::lookup_by_hash(d, hash),
            ) == UploadVerdict::NotModified
        }),
{
    let d = package_ingested(c, filename, hash, size, name, version, entries)->Ok_0;
    let (start, id, i) = if c.has_modlist_filename(filename) {
        let i = c.modlist_filename_index(filename);
        let m = ModlistView { name, version, size, hash, available: true, ..c.modlists[i] };
        assert forall|k: int| 0 <= k < c.modlists.len() && k != i implies (#[trigger] c.modlists[k]).filename
            != m.filename by {}
        crate::modlist::lemma_modlist_replaced_wf(c, i, m);
        (c.with_modlist_at(i, m), c.modlists[i].id, i)
    } else {
        crate::modlist::lemma_new_modlist_wf(c, filename, name, version, size, hash, true);
        (c.with_new_modlist(filename, name, version, size, hash, true), c.next_modlist_id, c.modlists.len() as int)
    };
    assert(start.modlists[i].id == id);
    assert(has_modlist_id(start.modlists, id));
    lemma_entries_merged_wf(start, id, entries);
    assert(d.modlists == start.modlists);
    assert(d.modlists[i].filename == filename && d.modlists[i].hash == hash && d.modlists[i].available);
    assert(d.has_modlist_filename(filename));
    let j = d.modlist_filename_index(filename);
    assert(j == i) by {
        if j != i {
            assert(d.modlists[j].filename == d.modlists[i].filename);
        }
    }
    assert forall|k: int| 0 <= k < d.modlists.len() && k != i implies !(modlist_hash_is(hash))(
        #[trigger] d.modlists[k],
    ) by {
        if d.modlists[k].hash == hash {
            assert(k < c.modlists.len());
            assert(d.modlists[k] == c.modlists[k]);
            assert(d.modlists[k].filename == d.modlists[i].filename);
        }
    }
    lemma_first_match_unique(d.modlists, modlist_hash_is(hash), i);
}

/// Content whose bytes were checked against the claimed hash and then stored
/// is recorded under the hash of those very bytes.
pub proof fn lemma_stored_hash_matches_content(
    c: CatalogView,
    name: Seq<char>,
    data: Seq<u8>,
    claimed: Seq<char>,
)
    requires
        c.wf(),
        content_hash_of(data) == claimed,
        data.len() <= u64::MAX,
        content_ingested(c, name, claimed, data.len() as u64) is Ok,
    ensures
        ({
            let d = content_ingested(c, name, claimed, data.len() as u64)->Ok_0;
            forall|k: int|
                0 <= k < d.mods.len() && (#[trigger] d.mods[k]).disk_filename == Some(name) && (k >= c.mods.len()
                    || c.mods[k].disk_filename != Some(name)) ==> d.mods[k].hash == content_hash_of(data)
                    && d.mods[k].size == data.len()
        }),
{
    let d = content_ingested(c, name, claimed, data.len() as u64)->Ok_0;
    assert forall|k: int|
        0 <= k < d.mods.len() && (#[trigger] d.mods[k]).disk_filename == Some(name) && (k >= c.mods.len()
            || c.mods[k].disk_filename != Some(name)) implies d.mods[k].hash == content_hash_of(data)
        && d.mods[k].size == data.len() by {
        if c.has_mod_key(claimed, data.len() as u64) {
            let i = c.mod_key_index(claimed, data.len() as u64);
            if k != i {
                assert(d.mods[k] == c.mods[k]);
            }
        }
    }
}

/// Whether uploaded bytes have the hash the uploader claimed.
pub fn upload_matches_claim(data: &[u8], claimed: &str) -> (r: bool)
    ensures
        r == (content_hash_of(data@) == claimed@),
{
    let computed = crate::hash::Hash::compute(data);
    computed == claimed.to_owned()
}

/// Merging the same content for the same modlist twice leaves exactly one
/// association between them, carrying what the later entry declares.
pub proof fn lemma_association_upsert(c: CatalogView, modlist_id: u64, first: Archive, second: Archive)
    requires
        c.wf(),
        has_modlist_id(c.modlists, modlist_id),
        first.hash@ == second.hash@,
        first.size == second.size,
        entry_merged(c, modlist_id, first) is Ok,
        entry_merged(entry_merged(c, modlist_id, first)->Ok_0, modlist_id, second) is Ok,
    ensures
        ({
            let d = entry_merged(entry_merged(c, modlist_id, first)->Ok_0, modlist_id, second)->Ok_0;
            let m = d.mods[d.mod_key_index(second.hash@, second.size)].id;
            &&& d.has_mod_key(second.hash@, second.size)
            &&& d.has_association(modlist_id, m)
            &&& d.associations[d.association_index(modlist_id, m)] == entry_association(modlist_id, m, second)
            &&& forall|k: int|
                0 <= k < d.associations.len() && k != d.association_index(modlist_id, m) ==> !(
                #[trigger] d.associations[k].modlist_id == modlist_id && d.associations[k].mod_id == m)
        }),
{
    let c1 = entry_merged(c, modlist_id, first)->Ok_0;
    lemma_entry_merged_wf(c, modlist_id, first);
    assert(has_modlist_id(c1.modlists, modlist_id));
    let d = entry_merged(c1, modlist_id, second)->Ok_0;
    lemma_entry_merged_wf(c1, modlist_id, second);
    let h = second.hash@;
    let sz = second.size;
    // After the first merge the content is cataloged, so the second merge finds it.
    assert(c1.has_mod_key(h, sz)) by {
        if c.has_mod_key(h, sz) {
            let i = c.mod_key_index(h, sz);
            assert(c1.mods == c.mods);
            assert(c1.mods[i].hash == h);
        } else {
            let n = c.mods.len() as int;
            assert(c1.mods[n].hash == h && c1.mods[n].size == sz);
        }
    }
    let i = c1.mod_key_index(h, sz);
    let m = c1.mods[i].id;
    let a = entry_association(modlist_id, m, second);
    assert(d == c1.with_association(a));
    assert(d.mods == c1.mods);
    assert(d.has_mod_key(h, sz)) by {
        assert(d.mods[i].hash == h);
    }
    assert(d.mod_key_index(h, sz) == i) by {
        let j = d.mod_key_index(h, sz);
        if j != i {
            assert(d.mods[j].hash == d.mods[i].hash);
        }
    }
    let j = if c1.has_association(modlist_id, m) {
        c1.association_index(modlist_id, m)
    } else {
        c1.associations.len() as int
    };
    assert(d.associations[j] == a);
    assert(d.has_association(modlist_id, m));
    assert(d.association_index(modlist_id, m) == j) by {
        let x = d.association_index(modlist_id, m);
        if x != j {
            assert(d.associations[x].modlist_id == d.associations[j].modlist_id);
        }
    }
}

/// Storing the same content under the same name a second time changes
/// nothing, so a reconciliation scan may run any number of times.
pub proof fn lemma_ingest_mod_idempotent(c: CatalogView, name: Seq<char>, hash: Seq<char>, size: u64)
    requires
        c.wf(),
        content_ingested(c, name, hash, size) is Ok,
    ensures
        ({
            let d = content_ingested(c, name, hash, size)->Ok_0;
            content_ingested(d, name, hash, size) == Ok::<CatalogView, IngestError>(d)
        }),
{
    let d = content_ingested(c, name, hash, size)->Ok_0;
    lemma_ingest_clears_lost(c, name, hash, size);
    let i = d.mod_key_index(hash, size);
    assert(!d.has_size_conflict(hash, size)) by {
        if d.has_size_conflict(hash, size) {
            let k = choose|k: int| 0 <= k < d.mods.len() && #[trigger] d.mods[k].hash == hash && d.mods[k].size != size;
            if k < c.mods.len() {
                if c.has_mod_key(hash, size) {
                    assert(d.mods[k] == c.mods[k] || k == c.mod_key_index(hash, size));
                }
                assert(c.mods[k].hash == hash);
            }
        }
    }
    assert(d.with_mod_stored(i, name).mods =~= d.mods);
}

} // verus!
