//! Catalog of content-addressed modlist packages and the mods they require:
//! upload validation, ingestion into the catalog, and the derived readiness
//! of each package.

pub mod archive_state;
pub mod catalog;
pub mod catalog_check;
pub mod cli;
pub mod data_dir;
pub mod display;
pub mod download_dir;
pub mod file_lists;
pub mod filenames;
pub mod hash;
pub mod ingest;
pub mod mod_archive;
pub mod mod_association;
pub mod mod_data;
pub mod modlist;
pub mod queries;
pub mod upload_validation;
pub mod wabbajack;
pub mod wabbajack_archive;
