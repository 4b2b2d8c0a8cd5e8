use base64::Engine;
use wabba::archive_state::ArchiveState;
use wabba::cli::{Cli, Commands, Verbosity};
use wabba::data_dir::DataDir;
use wabba::display::{format_hash, nexus_game_url_slug, remove_spaces};
use wabba::download_dir::DownloadDirectory;
use wabba::file_lists::{compare_file_lists, UploadType};
use wabba::filenames::{filename_candidate, split_extension};
use wabba::hash::{base64_to_base64url, digest_bytes};
use wabba::wabbajack::{Archive, WabbajackMetadata};

fn strings(v: &[&str]) -> Vec<String> {
    v.iter().map(|s| s.to_string()).collect()
}

#[test]
fn hash_is_base64_of_little_endian_xxh64() {
    let data = b"hello world";
    let digest = xxhash_rust::xxh64::xxh64(data, 0);
    let expected = base64::prelude::BASE64_STANDARD.encode(digest.to_le_bytes());
    let h = wabba::hash::Hash::compute(data);
    assert_eq!(h, expected);
    assert_eq!(h.len(), 12);
    assert_ne!(wabba::hash::Hash::compute(b""), wabba::hash::Hash::compute(b"x"));
    // xxh64 of the empty input with seed 0 is 0xEF46DB3751D8E999.
    assert_eq!(wabba::hash::Hash::compute(b""), base64::prelude::BASE64_STANDARD.encode(0xEF46DB3751D8E999u64.to_le_bytes()));
}

#[test]
fn digest_bytes_are_little_endian() {
    assert_eq!(digest_bytes(0x0102030405060708), vec![8, 7, 6, 5, 4, 3, 2, 1]);
}

#[test]
fn base64url_conversion() {
    assert_eq!(base64_to_base64url("ab+/cd=="), "ab-_cd");
    assert_eq!(base64_to_base64url("abc"), "abc");
    assert_eq!(base64_to_base64url(""), "");
    assert_eq!(base64_to_base64url("=="), "");
}

#[test]
fn filename_candidates() {
    assert_eq!(filename_candidate("textures.7z", "HASH", 0), "textures.7z");
    assert_eq!(filename_candidate("textures.7z", "HASH", 1), "textures-HASH.7z");
    assert_eq!(filename_candidate("textures.7z", "HASH", 2), "textures-HASH_1.7z");
    assert_eq!(filename_candidate("textures.7z", "HASH", 13), "textures-HASH_12.7z");
    assert_eq!(filename_candidate("README", "HASH", 1), "README-HASH");
    assert_eq!(filename_candidate("README", "HASH", 3), "README-HASH_2");
    assert_eq!(filename_candidate("a.tar.gz", "H", 1), "a.tar-H.gz");
    assert_eq!(split_extension("a.tar.gz"), ("a.tar", "gz"));
    assert_eq!(split_extension("plain"), ("plain", ""));
}

#[test]
fn data_dir_paths() {
    let d = DataDir::new("/srv/data");
    assert_eq!(d.get_path(), "/srv/data");
    assert_eq!(d.get_db_path(), "/srv/data/db.db");
    assert_eq!(d.get_modlist_dir(), "/srv/data/Modlists");
    assert_eq!(d.get_mod_dir(), "/srv/data/Downloads");
    assert_eq!(d.get_modlist_path("p.wabbajack"), "/srv/data/Modlists/p.wabbajack");
    assert_eq!(d.get_mod_path("a.7z"), "/srv/data/Downloads/a.7z");
    assert_eq!(DataDir::new("/srv/data/").get_db_path(), "/srv/data/db.db");
}

#[test]
fn display_helpers() {
    assert_eq!(format_hash("0123456789abcdefXYZ"), "0123456789abcdef...");
    assert_eq!(format_hash("0123456789abcdef"), "0123456789abcdef");
    assert_eq!(nexus_game_url_slug("Skyrim Special Edition"), "skyrimspecialedition");
    assert_eq!(remove_spaces(" a b "), "ab");
}

#[test]
fn archive_state_predicates() {
    let game = ArchiveState::GameFileSourceDownloader {
        game: String::new(),
        game_file: String::new(),
        game_version: String::new(),
        hash: String::new(),
    };
    assert!(!game.requires_download());
    assert!(ArchiveState::UnknownDownloader.requires_download());
    assert_eq!(ArchiveState::UnknownDownloader.name(), None);
    let ll = ArchiveState::LoversLabOAuthDownloader {
        author: None,
        description: None,
        ips4_file: None,
        ips4_mod: 1,
        ips4_url: String::new(),
        image_url: None,
        is_attachment: false,
        is_nsfw: false,
        name: Some("N".to_string()),
        primary_key_string: String::new(),
        url: String::new(),
        version: None,
    };
    assert_eq!(ll.name(), Some("N".to_string()));
    assert_eq!(ll.version(), None);
    assert!(ll.requires_download());
}

#[test]
fn manifest_file_lists() {
    let mk = |f: &str, state: ArchiveState| Archive {
        hash: "h".to_string(),
        meta: String::new(),
        filename: f.to_string(),
        size: 1,
        state,
    };
    let meta = WabbajackMetadata {
        archives: vec![
            mk("u.7z", ArchiveState::UnknownDownloader),
            mk("m.7z", ArchiveState::MegaDownloader { url: String::new() }),
            mk(
                "g.esm",
                ArchiveState::GameFileSourceDownloader {
                    game: String::new(),
                    game_file: String::new(),
                    game_version: String::new(),
                    hash: String::new(),
                },
            ),
        ],
        author: String::new(),
        description: String::new(),
        version: String::new(),
        game_type: String::new(),
        image: String::new(),
        name: String::new(),
        readme: String::new(),
        wabbajack_version: String::new(),
        website: String::new(),
        is_nsfw: false,
    };
    assert_eq!(meta.files_from_unknown_downloaders(), strings(&["u.7z"]));
    assert_eq!(meta.required_files(), strings(&["u.7z", "m.7z"]));
    assert_eq!(meta.required_archives().len(), 2);
}

#[test]
fn compare_lists() {
    let r = compare_file_lists(&strings(&["a", "b", "c"]), &strings(&["b", "d"]));
    assert_eq!(r.missing_files, strings(&["a", "c"]));
    assert_eq!(r.satisfied_files, strings(&["b"]));
    assert_eq!(r.extraneous_files, strings(&["d"]));
}

#[test]
fn upload_types_and_tool_types() {
    assert_eq!(UploadType::from_extension("wabbajack"), UploadType::Modlist);
    assert_eq!(UploadType::from_extension("7z"), UploadType::Mod);
    assert_eq!(UploadType::Modlist.as_str(), "modlist");
    assert_eq!(UploadType::Mod.as_str(), "mod");
    let cli = Cli { debug: 1, command: Commands::Hash { file: "f".to_string() } };
    assert_eq!(cli.verbosity(), Verbosity::Debug);
    assert_eq!(Cli { debug: 5, command: Commands::Hash { file: String::new() } }.verbosity(), Verbosity::Trace);
    let d = DownloadDirectory::new("/dl");
    assert_eq!(d.path, "/dl");
    assert_eq!(
        DownloadDirectory::archive_names(&strings(&["a.7z", "a.7z.meta", "b.zip"])),
        strings(&["a.7z", "b.zip"])
    );
}
