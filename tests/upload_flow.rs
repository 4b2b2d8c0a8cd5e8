use wabba::archive_state::ArchiveState;
use wabba::catalog::Catalog;
use wabba::ingest::{ingest_mod, ingest_modlist};
use wabba::mod_data::{Mod, ToggleLostForeverError};
use wabba::modlist::Modlist;
use wabba::queries::ModlistStatus;
use wabba::upload_validation::{validate_upload_request, UploadValidationResult};
use wabba::wabbajack::{Archive, WabbajackMetadata};

fn http_entry(filename: &str, hash: &str, size: u64) -> Archive {
    Archive {
        hash: hash.to_string(),
        meta: String::new(),
        filename: filename.to_string(),
        size,
        state: ArchiveState::HttpDownloader {
            url: "https://example.org/textures.7z".to_string(),
            headers: "[]".to_string(),
        },
    }
}

fn manifest(archives: Vec<Archive>) -> WabbajackMetadata {
    WabbajackMetadata {
        archives,
        author: "someone".to_string(),
        description: String::new(),
        version: "1.0".to_string(),
        game_type: "SkyrimSpecialEdition".to_string(),
        image: String::new(),
        name: "Pack".to_string(),
        readme: String::new(),
        wabbajack_version: "3.0".to_string(),
        website: String::new(),
        is_nsfw: false,
    }
}

/// A catalog holding one uploaded package that requires one archive.
fn catalog_with_pack() -> Catalog {
    let mut cat = Catalog::new();
    let meta = manifest(vec![http_entry("textures.7z", "H2", 2048)]);
    ingest_modlist("pack.manifest", "H1", 100, &meta, &mut cat).unwrap();
    cat
}

#[test]
fn package_upload_creates_rows() {
    let cat = catalog_with_pack();
    let list = Modlist::get_by_filename("pack.manifest", &cat).unwrap();
    assert!(list.available);
    assert!(!list.muted);
    assert_eq!(list.xxhash64, "H1");
    assert_eq!(list.name, "Pack");
    let m = Mod::get_by_size_and_hash(2048, "H2", &cat).unwrap();
    assert!(!m.is_available());
    assert!(!m.lost_forever);
    assert_eq!(cat.associations.len(), 1);
    assert_eq!(cat.associations[0].modlist_id, list.id);
    assert_eq!(cat.associations[0].mod_id, m.id);
    assert_eq!(cat.associations[0].filename, "textures.7z");
    assert_eq!(list.status(&cat), ModlistStatus::MissingFiles);
}

#[test]
fn content_upload_is_accepted_and_made_available() {
    let mut cat = catalog_with_pack();
    let v = validate_upload_request::<Mod>(Some("H2"), "textures.7z", false, &cat);
    assert!(matches!(v, UploadValidationResult::AcceptUpload));
    ingest_mod("textures.7z", "H2", 2048, &mut cat).unwrap();
    let m = Mod::get_by_size_and_hash(2048, "H2", &cat).unwrap();
    assert!(m.is_available());
    assert_eq!(m.disk_filename.as_deref(), Some("textures.7z"));
    assert_eq!(cat.mods.len(), 1);
    let list = Modlist::get_by_filename("pack.manifest", &cat).unwrap();
    assert_eq!(list.status(&cat), ModlistStatus::Ready);
}

#[test]
fn package_reupload_not_modified() {
    let cat = catalog_with_pack();
    let v = validate_upload_request::<Modlist>(Some("H1"), "pack.manifest", true, &cat);
    assert!(matches!(v, UploadValidationResult::NotModified));
}

#[test]
fn same_name_other_hash_is_user_error() {
    let mut cat = catalog_with_pack();
    ingest_mod("textures.7z", "H2", 2048, &mut cat).unwrap();
    let v = validate_upload_request::<Mod>(Some("H3"), "textures.7z", false, &cat);
    assert!(matches!(v, UploadValidationResult::RejectUserError(_)));
}

#[test]
fn toggle_lost_forever_on_stored_mod_fails() {
    let mut cat = catalog_with_pack();
    ingest_mod("textures.7z", "H2", 2048, &mut cat).unwrap();
    let m = Mod::get_by_size_and_hash(2048, "H2", &cat).unwrap();
    let before = format!("{:?}", cat.mods);
    assert_eq!(m.toggle_lost_forever(&mut cat), Err(ToggleLostForeverError::ModHasDiskFilename));
    assert_eq!(format!("{:?}", cat.mods), before);
}
