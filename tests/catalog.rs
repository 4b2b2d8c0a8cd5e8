use wabba::archive_state::ArchiveState;
use wabba::catalog::{Catalog, StorageError};
use wabba::ingest::{ingest_mod, ingest_modlist, upload_matches_claim, IngestError};
use wabba::mod_association::{ModAssociation, ModAssociationEgg};
use wabba::mod_data::{Mod, ModEgg, ToggleLostForeverError};
use wabba::modlist::{Modlist, ModlistEgg};
use wabba::queries::ModlistStatus;
use wabba::upload_validation::{validate_upload_request, UploadValidationResult};
use wabba::wabbajack::{Archive, WabbajackMetadata};

fn entry(filename: &str, hash: &str, size: u64, state: ArchiveState) -> Archive {
    Archive { hash: hash.to_string(), meta: String::new(), filename: filename.to_string(), size, state }
}

fn nexus(name: &str, version: &str) -> ArchiveState {
    ArchiveState::NexusDownloader {
        author: None,
        description: String::new(),
        file_id: 7,
        game_name: "Skyrim Special Edition".to_string(),
        image_url: None,
        is_nsfw: false,
        mod_id: 3,
        name: name.to_string(),
        version: version.to_string(),
    }
}

fn manifest(name: &str, archives: Vec<Archive>) -> WabbajackMetadata {
    WabbajackMetadata {
        archives,
        author: String::new(),
        description: String::new(),
        version: "2.1".to_string(),
        game_type: String::new(),
        image: String::new(),
        name: name.to_string(),
        readme: String::new(),
        wabbajack_version: String::new(),
        website: String::new(),
        is_nsfw: false,
    }
}

#[test]
fn mod_upload_twice_is_not_modified_and_changes_nothing() {
    let mut cat = Catalog::new();
    assert!(matches!(
        validate_upload_request::<Mod>(Some("AAA"), "a.7z", false, &cat),
        UploadValidationResult::AcceptUpload
    ));
    ingest_mod("a.7z", "AAA", 10, &mut cat).unwrap();
    let before = format!("{:?}", cat.mods);
    let v = validate_upload_request::<Mod>(Some("AAA"), "a.7z", true, &cat);
    assert!(matches!(v, UploadValidationResult::NotModified));
    assert_eq!(format!("{:?}", cat.mods), before);
}

#[test]
fn identities_stay_unique() {
    let mut cat = Catalog::new();
    ingest_mod("a.7z", "AAA", 10, &mut cat).unwrap();
    ingest_mod("b.7z", "AAA", 10, &mut cat).unwrap();
    assert_eq!(cat.mods.len(), 1);
    assert_eq!(cat.mods[0].disk_filename.as_deref(), Some("b.7z"));
    let egg = ModEgg { disk_filename: None, size: 10, xxhash64: "AAA".to_string() };
    assert_eq!(egg.create(&mut cat).unwrap_err(), StorageError::UniqueViolation);
    let meta = manifest("P", vec![]);
    ingest_modlist("p.wabbajack", "H", 5, &meta, &mut cat).unwrap();
    ingest_modlist("p.wabbajack", "H2", 6, &meta, &mut cat).unwrap();
    assert_eq!(cat.modlists.len(), 1);
    assert_eq!(cat.modlists[0].xxhash64, "H2");
    assert_eq!(cat.modlists[0].size, 6);
    let list_egg = ModlistEgg {
        filename: "p.wabbajack".to_string(),
        name: String::new(),
        version: String::new(),
        size: 1,
        xxhash64: "X".to_string(),
        available: false,
    };
    assert_eq!(list_egg.create(&mut cat).unwrap_err(), StorageError::UniqueViolation);
}

#[test]
fn checked_bytes_are_recorded_under_their_hash() {
    let data = b"some archive bytes".to_vec();
    let hash = wabba::hash::Hash::compute(&data);
    assert!(upload_matches_claim(&data, &hash));
    assert!(!upload_matches_claim(&data, "not the hash"));
    let mut cat = Catalog::new();
    ingest_mod("x.7z", &hash, data.len() as u64, &mut cat).unwrap();
    let m = Mod::get_by_disk_filename("x.7z", &cat).unwrap();
    assert_eq!(m.xxhash64, hash);
    assert_eq!(m.size, data.len() as u64);
}

#[test]
fn storing_content_clears_lost_forever() {
    let mut cat = Catalog::new();
    let meta = manifest("P", vec![entry("a.7z", "AAA", 10, nexus("A", "1"))]);
    ingest_modlist("p.wabbajack", "H", 5, &meta, &mut cat).unwrap();
    let m = Mod::get_by_hash("AAA", &cat).unwrap();
    m.toggle_lost_forever(&mut cat).unwrap();
    assert!(cat.mods[0].lost_forever);
    let m = Mod::get_by_hash("AAA", &cat).unwrap();
    m.toggle_lost_forever(&mut cat).unwrap();
    assert!(!cat.mods[0].lost_forever);
    let m = Mod::get_by_hash("AAA", &cat).unwrap();
    m.toggle_lost_forever(&mut cat).unwrap();
    assert!(cat.mods[0].lost_forever);
    ingest_mod("a.7z", "AAA", 10, &mut cat).unwrap();
    assert!(!cat.mods[0].lost_forever);
    let m = Mod::get_by_hash("AAA", &cat).unwrap();
    assert_eq!(m.toggle_lost_forever(&mut cat), Err(ToggleLostForeverError::ModHasDiskFilename));
    assert_eq!(
        ToggleLostForeverError::ModHasDiskFilename.message(),
        "Cannot mark mod as lost forever when disk_filename is set"
    );
}

#[test]
fn readiness_follows_mod_states() {
    let mut cat = Catalog::new();
    let empty = manifest("Empty", vec![]);
    ingest_modlist("empty.wabbajack", "E", 1, &empty, &mut cat).unwrap();
    let e = Modlist::get_by_filename("empty.wabbajack", &cat).unwrap();
    assert_eq!(e.status(&cat), ModlistStatus::Ready);
    assert_eq!(e.count_mods_total(&cat), 0);

    let meta = manifest(
        "P",
        vec![entry("a.7z", "AAA", 10, nexus("A", "1")), entry("b.7z", "BBB", 20, nexus("B", "1"))],
    );
    ingest_modlist("p.wabbajack", "H", 5, &meta, &mut cat).unwrap();
    let p = Modlist::get_by_filename("p.wabbajack", &cat).unwrap();
    assert_eq!(p.count_mods_total(&cat), 2);
    assert_eq!(p.count_mods_available(&cat), 0);
    ingest_mod("a.7z", "AAA", 10, &mut cat).unwrap();
    assert_eq!(p.count_mods_available(&cat), 1);
    assert_eq!(p.status(&cat), ModlistStatus::MissingFiles);
    let b = Mod::get_by_hash("BBB", &cat).unwrap();
    b.toggle_lost_forever(&mut cat).unwrap();
    assert!(p.has_lost_forever_mods(&cat));
    assert_eq!(p.status(&cat), ModlistStatus::Uninstallable);
}

#[test]
fn reingesting_an_entry_overwrites_its_association() {
    let mut cat = Catalog::new();
    let first = manifest("P", vec![entry("a.7z", "AAA", 10, nexus("Old name", "1.0"))]);
    ingest_modlist("p.wabbajack", "H", 5, &first, &mut cat).unwrap();
    let second = manifest("P", vec![entry("a-renamed.7z", "AAA", 10, nexus("New name", "2.0"))]);
    ingest_modlist("p.wabbajack", "H", 5, &second, &mut cat).unwrap();
    assert_eq!(cat.associations.len(), 1);
    let a = &cat.associations[0];
    assert_eq!(a.name.as_deref(), Some("New name"));
    assert_eq!(a.version.as_deref(), Some("2.0"));
    assert_eq!(a.filename, "a-renamed.7z");
    assert_eq!(cat.mods.len(), 1);
}

#[test]
fn package_with_conflicting_size_fails_and_changes_nothing() {
    let mut cat = Catalog::new();
    ingest_mod("a.7z", "AAA", 10, &mut cat).unwrap();
    let before = format!("{:?}", (&cat.mods, &cat.modlists, &cat.associations));
    let meta = manifest(
        "P",
        vec![entry("b.7z", "BBB", 1, nexus("B", "1")), entry("a.7z", "AAA", 11, nexus("A", "1"))],
    );
    assert_eq!(ingest_modlist("p.wabbajack", "H", 5, &meta, &mut cat), Err(IngestError::IntegrityError));
    assert_eq!(format!("{:?}", (&cat.mods, &cat.modlists, &cat.associations)), before);
    assert_eq!(ingest_mod("c.7z", "AAA", 12, &mut cat), Err(IngestError::IntegrityError));
}

#[test]
fn game_file_entries_are_cataloged_but_not_required() {
    let mut cat = Catalog::new();
    let game = ArchiveState::GameFileSourceDownloader {
        game: "Skyrim".to_string(),
        game_file: "Data/Skyrim.esm".to_string(),
        game_version: "1.6".to_string(),
        hash: "G".to_string(),
    };
    let meta = manifest("P", vec![entry("Skyrim.esm", "GGG", 99, game), entry("a.7z", "AAA", 10, nexus("A", "1"))]);
    assert_eq!(meta.required_files(), vec!["a.7z".to_string()]);
    ingest_modlist("p.wabbajack", "H", 5, &meta, &mut cat).unwrap();
    assert_eq!(cat.mods.len(), 2);
    assert_eq!(cat.associations.len(), 2);
}

#[test]
fn validator_covers_every_outcome() {
    let mut cat = Catalog::new();
    assert!(matches!(
        validate_upload_request::<Mod>(None, "a.7z", false, &cat),
        UploadValidationResult::RejectUserError(_)
    ));
    assert!(matches!(
        validate_upload_request::<Mod>(Some("AAA"), "a.7z", true, &cat),
        UploadValidationResult::RejectNeedsBootstrap(_)
    ));
    ingest_mod("a.7z", "AAA", 10, &mut cat).unwrap();
    assert!(matches!(
        validate_upload_request::<Mod>(Some("AAA"), "copy.7z", false, &cat),
        UploadValidationResult::RejectCorruptedState(_)
    ));
    let meta = manifest("P", vec![entry("b.7z", "BBB", 20, nexus("B", "1"))]);
    ingest_modlist("p.wabbajack", "H", 5, &meta, &mut cat).unwrap();
    assert!(matches!(
        validate_upload_request::<Mod>(Some("BBB"), "b.7z", true, &cat),
        UploadValidationResult::RejectNeedsBootstrap(_)
    ));
    assert!(matches!(
        validate_upload_request::<Mod>(Some("BBB"), "b.7z", false, &cat),
        UploadValidationResult::AcceptUpload
    ));
    assert!(matches!(
        validate_upload_request::<Modlist>(Some("H"), "other.wabbajack", false, &cat),
        UploadValidationResult::RejectCorruptedState(_)
    ));
    assert!(matches!(
        validate_upload_request::<Modlist>(Some("Z"), "p.wabbajack", false, &cat),
        UploadValidationResult::RejectUserError(_)
    ));
}

#[test]
fn association_rows_need_their_ends() {
    let mut cat = Catalog::new();
    let egg = ModAssociationEgg {
        modlist_id: 1,
        mod_id: 1,
        source: ArchiveState::UnknownDownloader,
        filename: "a.7z".to_string(),
        name: None,
        version: None,
    };
    assert_eq!(egg.create(&mut cat).unwrap_err(), StorageError::MissingReference);
    let m = ModEgg { disk_filename: None, size: 1, xxhash64: "A".to_string() }.create(&mut cat).unwrap();
    let l = ModlistEgg {
        filename: "l".to_string(),
        name: String::new(),
        version: String::new(),
        size: 1,
        xxhash64: "L".to_string(),
        available: true,
    }
    .create(&mut cat)
    .unwrap();
    assert_eq!((m.id, l.id), (1, 1));
    let a = egg.create(&mut cat).unwrap();
    assert_eq!(egg.create(&mut cat).unwrap_err(), StorageError::UniqueViolation);
    assert_eq!(ModAssociation::get_by_modlist_id(1, &cat).len(), 1);
    assert_eq!(Mod::get_by_modlist_id(1, &cat).len(), 1);
    assert_eq!(m.count_modlists(&cat), 1);
    assert_eq!(m.get_associated_modlists(&cat).len(), 1);
    a.delete(&mut cat);
    assert!(ModAssociation::get_by_modlist_and_mod(1, 1, &cat).is_none());
    assert_eq!(Mod::get_unavailable(&cat).len(), 1);
}

#[test]
fn modlist_update_and_mute() {
    let mut cat = Catalog::new();
    let meta = manifest("P", vec![]);
    ingest_modlist("p.wabbajack", "H", 5, &meta, &mut cat).unwrap();
    ingest_modlist("q.wabbajack", "Q", 5, &meta, &mut cat).unwrap();
    let mut p = Modlist::get_by_filename("p.wabbajack", &cat).unwrap();
    p.toggle_muted(&mut cat);
    assert_eq!(Modlist::get_muted(&cat).len(), 1);
    // Muting survives a re-upload.
    ingest_modlist("p.wabbajack", "H", 5, &meta, &mut cat).unwrap();
    assert!(Modlist::get_by_filename("p.wabbajack", &cat).unwrap().muted);
    p.filename = "q.wabbajack".to_string();
    assert_eq!(p.update(&mut cat), Err(StorageError::UniqueViolation));
    p.filename = "r.wabbajack".to_string();
    assert_eq!(p.update(&mut cat), Ok(()));
    assert!(Modlist::get_by_filename("r.wabbajack", &cat).is_some());
    p.id = 99;
    assert_eq!(p.update(&mut cat), Err(StorageError::MissingReference));
    assert_eq!(Modlist::get_all(&cat).len(), 2);
}

#[test]
fn stored_rows_are_checked_before_use() {
    let m = |id: u64, hash: &str, lost: bool, disk: Option<&str>| Mod {
        id,
        disk_filename: disk.map(|d| d.to_string()),
        size: 10,
        xxhash64: hash.to_string(),
        lost_forever: lost,
    };
    let ok = Catalog::from_rows(vec![m(3, "A", false, Some("a")), m(7, "B", true, None)], vec![], vec![]).unwrap();
    assert!(ok.is_well_formed());
    assert_eq!(ok.next_mod_id, 8);
    assert_eq!(ok.next_modlist_id, 1);
    assert!(Catalog::from_rows(vec![m(1, "A", false, None), m(2, "A", false, None)], vec![], vec![]).is_none());
    assert!(Catalog::from_rows(vec![m(1, "A", false, None), m(1, "B", false, None)], vec![], vec![]).is_none());
    assert!(Catalog::from_rows(vec![m(1, "A", true, Some("a"))], vec![], vec![]).is_none());
    assert!(Catalog::from_rows(vec![m(u64::MAX, "A", false, None)], vec![], vec![]).is_none());
    let dangling = ModAssociation {
        modlist_id: 1,
        mod_id: 1,
        source: ArchiveState::UnknownDownloader,
        filename: "a".to_string(),
        name: None,
        version: None,
    };
    assert!(Catalog::from_rows(vec![m(1, "A", false, None)], vec![], vec![dangling]).is_none());
    let mut cat = ok;
    ingest_mod("c.7z", "C", 1, &mut cat).unwrap();
    assert_eq!(cat.mods[2].id, 8);
}

#[test]
fn mod_update_keeps_the_rules() {
    let mut cat = Catalog::new();
    ingest_mod("a.7z", "AAA", 10, &mut cat).unwrap();
    ingest_mod("b.7z", "BBB", 10, &mut cat).unwrap();
    let mut a = Mod::get_by_hash("AAA", &cat).unwrap();
    a.xxhash64 = "BBB".to_string();
    assert_eq!(a.update(&mut cat), Err(StorageError::UniqueViolation));
    a.xxhash64 = "AAA".to_string();
    a.lost_forever = true;
    assert_eq!(a.update(&mut cat), Err(StorageError::LostWithFile));
    a.disk_filename = None;
    assert_eq!(a.update(&mut cat), Ok(()));
    assert!(cat.mods[0].lost_forever);
    a.id = 42;
    assert_eq!(a.update(&mut cat), Err(StorageError::MissingReference));
}

#[test]
fn storing_the_same_content_twice_changes_nothing() {
    let mut cat = Catalog::new();
    ingest_mod("a.7z", "AAA", 10, &mut cat).unwrap();
    let once = format!("{:?}", (&cat.mods, cat.next_mod_id));
    ingest_mod("a.7z", "AAA", 10, &mut cat).unwrap();
    assert_eq!(format!("{:?}", (&cat.mods, cat.next_mod_id)), once);
}
