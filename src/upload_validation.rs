//! Deciding, before any byte is accepted, what an upload request amounts to.
//! Validation never changes the catalog.

use vstd::prelude::*;
use crate::catalog::{first_match, Catalog, CatalogView};
use crate::mod_data::{hash_is, opt_mod_view, stored_as, Mod, ModView};
use crate::modlist::{modlist_hash_is, opt_modlist_view, Modlist, ModlistView};

verus! {

#[derive(Debug)]
pub enum UploadValidationResult {
    /// The content is cataloged, available, under this very name.
    NotModified,
    /// The upload may proceed.
    AcceptUpload,
    /// The request is wrong in a way the caller can correct.
    RejectUserError(String),
    /// The catalog already breaks content addressing; an operator must step in.
    RejectCorruptedState(String),
    /// Catalog and storage disagree; a reconciliation scan is needed.
    RejectNeedsBootstrap(String),
}

/// An upload decision as mathematical values.
pub enum UploadVerdict {
    NotModified,
    AcceptUpload,
    RejectUserError(Seq<char>),
    RejectCorruptedState(Seq<char>),
    RejectNeedsBootstrap(Seq<char>),
}

impl View for UploadValidationResult {
    type V = UploadVerdict;

    open spec fn view(&self) -> UploadVerdict {
        match self {
            UploadValidationResult::NotModified => UploadVerdict::NotModified,
            UploadValidationResult::AcceptUpload => UploadVerdict::AcceptUpload,
            UploadValidationResult::RejectUserError(s) => UploadVerdict::RejectUserError(s@),
            UploadValidationResult::RejectCorruptedState(s) => UploadVerdict::RejectCorruptedState(s@),
            UploadValidationResult::RejectNeedsBootstrap(s) => UploadVerdict::RejectNeedsBootstrap(s@),
        }
    }
}

/// What validation reads of a cataloged row: its hash, the file name it is
/// recorded under (if any), and whether its content is available.
pub struct StoredRecord {
    pub hash: Seq<char>,
    pub filename: Option<Seq<char>>,
    pub available: bool,
}

pub open spec fn msg_hash_required() -> Seq<char> {
    "If-None-Match header is required"@
}

pub open spec fn msg_name_taken() -> Seq<char> {
    "A file with this name is already stored with a different hash"@
}

pub open spec fn msg_hash_elsewhere() -> Seq<char> {
    "Content hash already stored under a different filename"@
}

pub open spec fn msg_unknown_on_disk() -> Seq<char> {
    "A file already exists on disk that the catalog does not record"@
}

/// The decision for an upload of `filename` claiming hash `claimed`, given
/// whether a file already exists at the target path and the cataloged rows
/// found by file name and by hash.
pub open spec fn upload_verdict(
    claimed: Option<Seq<char>>,
    filename: Seq<char>,
    on_disk: bool,
    by_name: Option<StoredRecord>,
    by_hash: Option<StoredRecord>,
) -> UploadVerdict {
    match claimed {
        None => UploadVerdict::RejectUserError(msg_hash_required()),
        Some(h) => if by_name matches Some(n) && n.hash != h {
            UploadVerdict::RejectUserError(msg_name_taken())
        } else {
            match by_hash {
                Some(rec) => if rec.available {
                    if rec.filename == Some(filename) {
                        UploadVerdict::NotModified
                    } else {
                        UploadVerdict::RejectCorruptedState(msg_hash_elsewhere())
                    }
                } else if on_disk {
                    UploadVerdict::RejectNeedsBootstrap(msg_unknown_on_disk())
                } else if rec.filename is Some && rec.filename != Some(filename) {
                    UploadVerdict::RejectCorruptedState(msg_hash_elsewhere())
                } else {
                    UploadVerdict::AcceptUpload
                },
                None => if on_disk {
                    UploadVerdict::RejectNeedsBootstrap(msg_unknown_on_disk())
                } else {
                    UploadVerdict::AcceptUpload
                },
            }
        },
    }
}

/// A kind of cataloged content that uploads can target.
pub trait ArchiveType: Sized {
    spec fn record(&self) -> StoredRecord;

    /// The row that validation finds by hash.
    spec fn lookup_by_hash(catalog: CatalogView, hash: Seq<char>) -> Option<StoredRecord>;

    /// The row that validation finds by file name.
    spec fn lookup_by_filename(catalog: CatalogView, filename: Seq<char>) -> Option<StoredRecord>;

    fn get_by_hash(hash: &str, catalog: &Catalog) -> (r: Option<Self>)
        requires
            catalog.wf(),
        ensures
            match r {
                Some(a) => Self::lookup_by_hash(catalog@, hash@) == Some(a.record()),
                None => Self::lookup_by_hash(catalog@, hash@) is None,
            },
    ;

    fn find_by_filename(filename: &str, catalog: &Catalog) -> (r: Option<Self>)
        requires
            catalog.wf(),
        ensures
            match r {
                Some(a) => Self::lookup_by_filename(catalog@, filename@) == Some(a.record()),
                None => Self::lookup_by_filename(catalog@, filename@) is None,
            },
    ;

    fn is_available(&self) -> (r: bool)
        ensures
            r == self.record().available,
    ;

    fn has_hash(&self, hash: &str) -> (r: bool)
        ensures
            r == (self.record().hash == hash@),
    ;

    /// Whether the row is recorded under `filename`.
    fn is_recorded_as(&self, filename: &str) -> (r: bool)
        ensures
            r == (self.record().filename == Some(filename@)),
    ;

    /// Whether the row is recorded under a file name other than `filename`.
    fn has_other_filename(&self, filename: &str) -> (r: bool)
        ensures
            r == (self.record().filename is Some && self.record().filename != Some(filename@)),
    ;
}

pub open spec fn opt_record<A: ArchiveType>(r: Option<A>) -> Option<StoredRecord> {
    match r {
        Some(a) => Some(a.record()),
        None => None,
    }
}

pub open spec fn opt_str_view(s: Option<&str>) -> Option<Seq<char>> {
    match s {
        Some(t) => Some(t@),
        None => None,
    }
}

pub open spec fn mod_record(m: ModView) -> StoredRecord {
    StoredRecord { hash: m.hash, filename: m.disk_filename, available: m.disk_filename is Some }
}

pub open spec fn modlist_record(m: ModlistView) -> StoredRecord {
    StoredRecord { hash: m.hash, filename: Some(m.filename), available: m.available }
}

pub open spec fn opt_mod_record(m: Option<ModView>) -> Option<StoredRecord> {
    match m {
        Some(v) => Some(mod_record(v)),
        None => None,
    }
}

pub open spec fn opt_modlist_record(m: Option<ModlistView>) -> Option<StoredRecord> {
    match m {
        Some(v) => Some(modlist_record(v)),
        None => None,
    }
}

fn same_text(a: &String, b: &str) -> (r: bool)
    ensures
        r == (a@ == b@),
{
    *a == b.to_owned()
}

impl ArchiveType for Mod {
    open spec fn record(&self) -> StoredRecord {
        mod_record(self@)
    }

    open spec fn lookup_by_hash(catalog: CatalogView, hash: Seq<char>) -> Option<StoredRecord> {
        opt_mod_record(first_match(catalog.mods, hash_is(hash)))
    }

    open spec fn lookup_by_filename(catalog: CatalogView, filename: Seq<char>) -> Option<StoredRecord> {
        opt_mod_record(first_match(catalog.mods, stored_as(filename)))
    }

    fn get_by_hash(hash: &str, catalog: &Catalog) -> (r: Option<Self>) {
        Mod::get_by_hash(hash, catalog)
    }

    fn find_by_filename(filename: &str, catalog: &Catalog) -> (r: Option<Self>) {
        Mod::get_by_disk_filename(filename, catalog)
    }

    fn is_available(&self) -> (r: bool) {
        self.is_available()
    }

    fn has_hash(&self, hash: &str) -> (r: bool) {
        same_text(&self.xxhash64, hash)
    }

    fn is_recorded_as(&self, filename: &str) -> (r: bool) {
        match &self.disk_filename {
            Some(f) => same_text(f, filename),
            None => false,
        }
    }

    fn has_other_filename(&self, filename: &str) -> (r: bool) {
        match &self.disk_filename {
            Some(f) => !same_text(f, filename),
            None => false,
        }
    }
}

impl ArchiveType for Modlist {
    open spec fn record(&self) -> StoredRecord {
        modlist_record(self@)
    }

    open spec fn lookup_by_hash(catalog: CatalogView, hash: Seq<char>) -> Option<StoredRecord> {
        opt_modlist_record(first_match(catalog.modlists, modlist_hash_is(hash)))
    }

    open spec fn lookup_by_filename(catalog: CatalogView, filename: Seq<char>) -> Option<StoredRecord> {
        if catalog.has_modlist_filename(filename) {
            Some(modlist_record(catalog.modlists[catalog.modlist_filename_index(filename)]))
        } else {
            None
        }
    }

    fn get_by_hash(hash: &str, catalog: &Catalog) -> (r: Option<Self>) {
        Modlist::get_by_hash(hash, catalog)
    }

    fn find_by_filename(filename: &str, catalog: &Catalog) -> (r: Option<Self>) {
        Modlist::get_by_filename(filename, catalog)
    }

    fn is_available(&self) -> (r: bool) {
        self.is_available()
    }

    fn has_hash(&self, hash: &str) -> (r: bool) {
        same_text(&self.xxhash64, hash)
    }

    fn is_recorded_as(&self, filename: &str) -> (r: bool) {
        same_text(&self.filename, filename)
    }

    fn has_other_filename(&self, filename: &str) -> (r: bool) {
        !same_text(&self.filename, filename)
    }
}

/// The decision of `upload_verdict`, over rows already looked up.
pub fn decide_upload<A: ArchiveType>(
    claimed: Option<&str>,
    filename: &str,
    file_exists: bool,
    by_filename: &Option<A>,
    by_hash: &Option<A>,
) -> (r: UploadValidationResult)
    ensures
        r@ == upload_verdict(
            opt_str_view(claimed),
            filename@,
            file_exists,
            opt_record(*by_filename),
            opt_record(*by_hash),
        ),
{
    let h = match claimed {
        Some(h) => h,
        None => {
            return UploadValidationResult::RejectUserError(
                String::from_str("If-None-Match header is required"),
            );
        },
    };
    match by_filename {
        Some(n) => {
            if !n.has_hash(h) {
                return UploadValidationResult::RejectUserError(
                    String::from_str("A file with this name is already stored with a different hash"),
                );
            }
        },
        None => {},
    }
    match by_hash {
        Some(rec) => {
            if rec.is_available() {
                if rec.is_recorded_as(filename) {
                    UploadValidationResult::NotModified
                } else {
                    UploadValidationResult::RejectCorruptedState(
                        String::from_str("Content hash already stored under a different filename"),
                    )
                }
            } else if file_exists {
                UploadValidationResult::RejectNeedsBootstrap(
                    String::from_str("A file already exists on disk that the catalog does not record"),
                )
            } else if rec.has_other_filename(filename) {
                UploadValidationResult::RejectCorruptedState(
                    String::from_str("Content hash already stored under a different filename"),
                )
            } else {
                UploadValidationResult::AcceptUpload
            }
        },
        None => {
            if file_exists {
                UploadValidationResult::RejectNeedsBootstrap(
                    String::from_str("A file already exists on disk that the catalog does not record"),
                )
            } else {
                UploadValidationResult::AcceptUpload
            }
        },
    }
}

/// Decides an upload of `filename` claiming hash `claimed` against the
/// catalog, given whether a file already exists at the target path.
pub fn validate_upload_request<A: ArchiveType>(
    claimed: Option<&str>,
    filename: &str,
    file_exists: bool,
    catalog: &Catalog,
) -> (r: UploadValidationResult)
    requires
        catalog.wf(),
    ensures
        r@ == match claimed {
            Some(h) => upload_verdict(
                Some(h@),
                filename@,
                file_exists,
                A::lookup_by_filename(catalog@, filename@),
                A::lookup_by_hash(catalog@, h@),
            ),
            None => UploadVerdict::RejectUserError(msg_hash_required()),
        },
{
    match claimed {
        Some(h) => {
            let by_filename = A::find_by_filename(filename, catalog);
            let by_hash = A::get_by_hash(h, catalog);
            decide_upload(claimed, filename, file_exists, &by_filename, &by_hash)
        },
        None => decide_upload::<A>(None, filename, file_exists, &None, &None),
    }
}

} // verus!
