//! Importing files from external APIs, finding outdated ones, and OAuth exchanges.

use crate::document::{hex_lower, sha256, sha256_digest, DocumentType};
use crate::text::chars_of;
use vstd::prelude::*;

verus! {

#[derive(Debug)]
pub struct OAuthExchangeRequest {
    pub grant_type: String,
    pub code: String,
    pub redirect_uri: String,
    pub code_verifier: Option<String>,
}

#[derive(Debug)]
pub struct OAuthToken {
    pub access_token: String,
    pub refresh_token: Option<String>,
    pub expires_in: usize,
}

/// Exchanges authorization codes with an external OAuth API.
#[derive(Clone)]
pub struct ExternalAuthorizationService<T> {
    api: T,
}

impl<T> ExternalAuthorizationService<T> {
    pub closed spec fn api_spec(&self) -> T {
        self.api
    }

    pub fn new(api: T) -> (res: Self)
        ensures
            res.api_spec() == api,
    {
        Self { api }
    }

    /// The API the codes are exchanged with.
    pub fn api(&self) -> (res: &T)
        ensures
            *res == self.api_spec(),
    {
        &self.api
    }
}

#[derive(Debug, Default)]
pub struct ImportFailure {
    /// External file ID.
    file_id: String,
    /// External file name.
    file_name: String,
    /// Error message.
    error: String,
}

impl ImportFailure {
    pub closed spec fn file_id_spec(&self) -> Seq<char> {
        self.file_id@
    }

    pub closed spec fn file_name_spec(&self) -> Seq<char> {
        self.file_name@
    }

    pub closed spec fn error_spec(&self) -> Seq<char> {
        self.error@
    }

    pub fn new(file_id: String, file_name: String, error: String) -> (res: Self)
        ensures
            res.file_id_spec() == file_id@,
            res.file_name_spec() == file_name@,
            res.error_spec() == error@,
    {
        Self { file_id, file_name, error }
    }

    pub fn file_id(&self) -> (res: &str)
        ensures
            res@ == self.file_id_spec(),
    {
        self.file_id.as_str()
    }

    pub fn file_name(&self) -> (res: &str)
        ensures
            res@ == self.file_name_spec(),
    {
        self.file_name.as_str()
    }

    pub fn error(&self) -> (res: &str)
        ensures
            res@ == self.error_spec(),
    {
        self.error.as_str()
    }
}

/// What importing one external file came to.
pub enum ImportOutcome<D> {
    /// The file's details could not be obtained from the external API.
    FileUnavailable { file_id: String, error: String },
    /// The file's content could not be downloaded.
    DownloadFailed { path: String, name: String, error: String },
    /// A document is stored at the file's local path already.
    Duplicate(D),
    /// The file was stored as a new document.
    Imported(D),
}

/// The results of importing files from an external API.
#[derive(Debug)]
pub struct ImportResult<D> {
    /// Successfully imported files.
    success: Vec<D>,
    /// Failed to import files.
    failed: Vec<ImportFailure>,
    /// Skipped files in case of path collisions.
    skipped: Vec<D>,
}

/// The failure that an outcome is recorded as, if it is one: the file's ID with the name
/// `Unknown` when its details were unavailable, its path and name when the download failed.
pub open spec fn outcome_failure<D>(o: ImportOutcome<D>) -> Option<(Seq<char>, Seq<char>, Seq<char>)> {
    match o {
        ImportOutcome::FileUnavailable { file_id, error } => Some((file_id@, "Unknown"@, error@)),
        ImportOutcome::DownloadFailed { path, name, error } => Some((path@, name@, error@)),
        _ => None,
    }
}

pub open spec fn failure_view(f: ImportFailure) -> (Seq<char>, Seq<char>, Seq<char>) {
    (f.file_id_spec(), f.file_name_spec(), f.error_spec())
}

impl<D> ImportResult<D> {
    pub closed spec fn success_spec(&self) -> Seq<D> {
        self.success@
    }

    pub closed spec fn skipped_spec(&self) -> Seq<D> {
        self.skipped@
    }

    pub closed spec fn failed_spec(&self) -> Seq<(Seq<char>, Seq<char>, Seq<char>)> {
        self.failed@.map_values(|f: ImportFailure| failure_view(f))
    }

    /// The number of files the results account for.
    pub open spec fn total(&self) -> nat {
        self.success_spec().len() + self.skipped_spec().len() + self.failed_spec().len()
    }

    /// Record what importing one more file came to: exactly one of the three lists grows by it.
    pub fn record(&mut self, outcome: ImportOutcome<D>)
        ensures
            final(self).total() == old(self).total() + 1,
            match outcome {
                ImportOutcome::Imported(d) => final(self).success_spec() == old(self).success_spec().push(
                    d,
                ) && final(self).skipped_spec() == old(self).skipped_spec()
                    && final(self).failed_spec() == old(self).failed_spec(),
                ImportOutcome::Duplicate(d) => final(self).skipped_spec() == old(self).skipped_spec().push(
                    d,
                ) && final(self).success_spec() == old(self).success_spec()
                    && final(self).failed_spec() == old(self).failed_spec(),
                _ => final(self).failed_spec() == old(self).failed_spec().push(
                    outcome_failure(outcome).unwrap(),
                ) && final(self).success_spec() == old(self).success_spec()
                    && final(self).skipped_spec() == old(self).skipped_spec(),
            },
    {
        let ghost failed_before = self.failed_spec();
        match outcome {
            ImportOutcome::FileUnavailable { file_id, error } => {
                self.failed.push(ImportFailure::new(file_id, "Unknown".to_owned(), error));
            },
            ImportOutcome::DownloadFailed { path, name, error } => {
                self.failed.push(ImportFailure::new(path, name, error));
            },
            ImportOutcome::Duplicate(d) => {
                self.skipped.push(d);
            },
            ImportOutcome::Imported(d) => {
                self.success.push(d);
            },
        }
        proof {
            if outcome_failure(outcome) is Some {
                assert(self.failed_spec() =~= failed_before.push(outcome_failure(outcome).unwrap()));
            } else {
                assert(self.failed_spec() =~= failed_before);
            }
        }
    }
}

/// Where the import of one file from an external API stands.
pub enum ImportState {
    /// The file's details are being fetched.
    Fetching { file_id: String },
    /// The file's content is being downloaded from its path.
    Downloading { path: String, name: String, ty: DocumentType },
    /// The content is downloaded; a document stored at the file's local path is looked for.
    Checking { name: String, ty: DocumentType, hash: String, content: Vec<u8> },
    /// The new document is being stored.
    Storing,
    /// The file is accounted for.
    Done,
}

/// What came of the outside work of an import step.
pub enum ImportEvent<D> {
    /// The file's path, name and type, or the API's error.
    FileDetails(Result<(String, String, DocumentType), String>),
    /// The file's content, or the API's error.
    Downloaded(Result<Vec<u8>, String>),
    /// The document stored at the file's local path, if there is one.
    Existing(Option<D>),
    /// The new document, stored.
    Stored(D),
}

/// What to do next in importing a file.
pub enum ImportAction<D> {
    /// Download the content at this path.
    Download(String),
    /// Look for a document stored at the local path of a file with this name and type.
    LookUpPath { name: String, ty: DocumentType },
    /// Store a new document with this name, type, hash and content.
    Store { name: String, ty: DocumentType, hash: String, content: Vec<u8> },
    /// Record what the file came to; it is accounted for.
    Record(ImportOutcome<D>),
    /// What was handed back does not belong to the step the import is at.
    Unexpected,
}

/// One step of importing a file from an external API: a file whose details or content cannot
/// be had is recorded as failed, with the API's error; a file whose local path a stored
/// document has already is recorded as skipped; other content is stored as a new document
/// under its SHA-256 hash, and recorded as imported.
pub fn import_step<D>(state: ImportState, event: ImportEvent<D>) -> (res: (ImportState, ImportAction<D>))
    ensures
        match (state, event) {
            (ImportState::Fetching { file_id }, ImportEvent::FileDetails(Err(e))) => res.0 is Done
                && (res.1 matches ImportAction::Record(ImportOutcome::FileUnavailable { file_id: f, error: m })
                && f@ == file_id@ && m@ == e@),
            (ImportState::Fetching { .. }, ImportEvent::FileDetails(Ok(details))) => (res.0 matches ImportState::Downloading {
                path,
                name,
                ty,
            } && path@ == details.0@ && name@ == details.1@ && ty == details.2) && (res.1 matches ImportAction::Download(
                p,
            ) && p@ == details.0@),
            (ImportState::Downloading { path, name, .. }, ImportEvent::Downloaded(Err(e))) => res.0 is Done
                && (res.1 matches ImportAction::Record(ImportOutcome::DownloadFailed { path: p, name: n, error: m })
                && p@ == path@ && n@ == name@ && m@ == e@),
            (ImportState::Downloading { name, ty, .. }, ImportEvent::Downloaded(Ok(c))) => (res.0 matches ImportState::Checking {
                name: n,
                ty: t,
                hash,
                content,
            } && n@ == name@ && t == ty && hash@ == hex_lower(sha256_digest(c@)) && content@ == c@) && (res.1 matches ImportAction::LookUpPath {
                name: n2,
                ty: t2,
            } && n2@ == name@ && t2 == ty),
            (ImportState::Checking { .. }, ImportEvent::Existing(Some(d))) => res.0 is Done && res.1
                == ImportAction::Record(ImportOutcome::Duplicate(d)),
            (ImportState::Checking { name, ty, hash, content }, ImportEvent::Existing(None)) => res.0 is Storing
                && (res.1 matches ImportAction::Store { name: n, ty: t, hash: h, content: c } && n@ == name@ && t
                == ty && h@ == hash@ && c@ == content@),
            (ImportState::Storing, ImportEvent::Stored(d)) => res.0 is Done && res.1 == ImportAction::Record(
                ImportOutcome::Imported(d),
            ),
            _ => res.0 is Done && res.1 is Unexpected,
        },
{
    match (state, event) {
        (ImportState::Fetching { file_id }, ImportEvent::FileDetails(Err(e))) => (
            ImportState::Done,
            ImportAction::Record(ImportOutcome::FileUnavailable { file_id, error: e }),
        ),
        (ImportState::Fetching { .. }, ImportEvent::FileDetails(Ok((path, name, ty)))) => {
            let target = path.clone();
            (ImportState::Downloading { path, name, ty }, ImportAction::Download(target))
        },
        (ImportState::Downloading { path, name, .. }, ImportEvent::Downloaded(Err(e))) => (
            ImportState::Done,
            ImportAction::Record(ImportOutcome::DownloadFailed { path, name, error: e }),
        ),
        (ImportState::Downloading { name, ty, .. }, ImportEvent::Downloaded(Ok(content))) => {
            let hash = sha256(content.as_slice());
            let local_name = name.clone();
            (ImportState::Checking { name, ty, hash, content }, ImportAction::LookUpPath { name: local_name, ty })
        },
        (ImportState::Checking { .. }, ImportEvent::Existing(Some(d))) => (
            ImportState::Done,
            ImportAction::Record(ImportOutcome::Duplicate(d)),
        ),
        (ImportState::Checking { name, ty, hash, content }, ImportEvent::Existing(None)) => (
            ImportState::Storing,
            ImportAction::Store { name, ty, hash, content },
        ),
        (ImportState::Storing, ImportEvent::Stored(d)) => (
            ImportState::Done,
            ImportAction::Record(ImportOutcome::Imported(d)),
        ),
        _ => (ImportState::Done, ImportAction::Unexpected),
    }
}

impl<D> Default for ImportResult<D> {
    /// No file imported yet.
    fn default() -> (res: Self)
        ensures
            res.success_spec() == Seq::<D>::empty(),
            res.skipped_spec() == Seq::<D>::empty(),
            res.failed_spec() == Seq::<(Seq<char>, Seq<char>, Seq<char>)>::empty(),
    {
        let res = Self { success: Vec::new(), failed: Vec::new(), skipped: Vec::new() };
        assert(res.failed_spec() =~= Seq::<(Seq<char>, Seq<char>, Seq<char>)>::empty());
        res
    }
}

/// A point in time: whole seconds since the epoch and the nanoseconds past them.
#[derive(Debug, Clone, Copy, PartialEq, Eq, Structural)]
pub struct Timestamp {
    pub secs: i64,
    pub nanos: u32,
}

/// `a` is later than `b`.
pub open spec fn is_later(a: Timestamp, b: Timestamp) -> bool {
    a.secs > b.secs || (a.secs == b.secs && a.nanos > b.nanos)
}

fn later(a: Timestamp, b: Timestamp) -> (res: bool)
    ensures
        res == is_later(a, b),
{
    a.secs > b.secs || (a.secs == b.secs && a.nanos > b.nanos)
}

/// A locally stored document of an external API, with the time it was last updated.
#[derive(Debug, Clone)]
pub struct LocalDocumentTime {
    pub id: u128,
    pub path: String,
    pub updated_at: Timestamp,
}

/// A file of an external API: its external path, its name, the absolute path the local storage
/// keeps it under, and the time it was last modified, if known.
#[derive(Debug, Clone)]
pub struct ExternalFileTime {
    pub external_id: String,
    pub name: String,
    pub local_path: String,
    pub modified_at: Option<Timestamp>,
}

#[derive(Debug)]
pub struct OutdatedDocument {
    /// The local ID of the document.
    pub id: u128,
    /// The external ID of the document.
    pub external_id: String,
    /// The local name of the document.
    pub name: String,
    /// The local modification time of the document.
    pub local_updated_at: Timestamp,
    /// The external modification time of the document.
    pub external_updated_at: Timestamp,
}

/// `s` ends with `suffix`.
pub open spec fn ends_with(s: Seq<char>, suffix: Seq<char>) -> bool {
    suffix.len() <= s.len() && s.subrange(s.len() - suffix.len(), s.len() as int) == suffix
}

/// Whether `s` ends with `suffix`.
pub fn str_ends_with(s: &str, suffix: &str) -> (res: bool)
    ensures
        res == ends_with(s@, suffix@),
{
    let a = chars_of(s);
    let b = chars_of(suffix);
    if b.len() > a.len() {
        return false;
    }
    let alen = a.len();
    let off = alen - b.len();
    let mut i: usize = 0;
    while i < b.len()
        invariant
            a@ == s@,
            b@ == suffix@,
            b@.len() <= a@.len(),
            off == a@.len() - b@.len(),
            alen == a@.len(),
            i <= b@.len(),
            forall|k: int| 0 <= k < i ==> a@[off + k] == b@[k],
        decreases b@.len() - i,
    {
        if a[off + i] != b[i] {
            assert(s@.subrange(s@.len() - suffix@.len(), s@.len() as int)[i as int] != suffix@[i as int]);
            return false;
        }
        i += 1;
    }
    assert(s@.subrange(s@.len() - suffix@.len(), s@.len() as int) =~= suffix@);
    true
}

/// The index of the first external file stored at a path that `path` ends with, or `-1`.
pub open spec fn first_match(path: Seq<char>, externals: Seq<ExternalFileTime>) -> int
    decreases externals.len(),
{
    if externals.len() == 0 {
        -1
    } else if ends_with(path, externals[0].local_path@) {
        0
    } else {
        let rest = first_match(path, externals.drop_first());
        if rest < 0 {
            -1
        } else {
            rest + 1
        }
    }
}

/// The external file a local document comes from, if it has been modified after the document.
pub open spec fn outdated_by(local: LocalDocumentTime, externals: Seq<ExternalFileTime>) -> Option<
    ExternalFileTime,
> {
    let k = first_match(local.path@, externals);
    if k >= 0 {
        match externals[k].modified_at {
            Some(t) => if is_later(t, local.updated_at) {
                Some(externals[k])
            } else {
                None
            },
            None => None,
        }
    } else {
        None
    }
}

/// The documents found outdated, in the order of `locals`.
pub open spec fn outdated_spec(locals: Seq<LocalDocumentTime>, externals: Seq<ExternalFileTime>) -> Seq<
    (u128, Seq<char>, Seq<char>, Timestamp, Timestamp),
>
    decreases locals.len(),
{
    if locals.len() == 0 {
        Seq::empty()
    } else {
        let prev = outdated_spec(locals.drop_last(), externals);
        let l = locals.last();
        match outdated_by(l, externals) {
            Some(e) => prev.push((l.id, e.external_id@, e.name@, l.updated_at, e.modified_at.unwrap())),
            None => prev,
        }
    }
}

impl OutdatedDocument {
    pub fn new(
        id: u128,
        external_id: String,
        name: String,
        local_updated_at: Timestamp,
        external_updated_at: Timestamp,
    ) -> (res: Self)
        ensures
            outdated_view(res) == (id, external_id@, name@, local_updated_at, external_updated_at),
    {
        Self { id, external_id, name, local_updated_at, external_updated_at }
    }
}

pub open spec fn outdated_view(d: OutdatedDocument) -> (u128, Seq<char>, Seq<char>, Timestamp, Timestamp) {
    (d.id, d.external_id@, d.name@, d.local_updated_at, d.external_updated_at)
}

proof fn lemma_first_match_bounds(path: Seq<char>, externals: Seq<ExternalFileTime>)
    ensures
        -1 <= first_match(path, externals) < externals.len(),
        first_match(path, externals) >= 0 ==> ends_with(
            path,
            externals[first_match(path, externals)].local_path@,
        ),
        forall|k: int|
            0 <= k < (if first_match(path, externals) < 0 {
                externals.len() as int
            } else {
                first_match(path, externals)
            }) ==> !ends_with(path, #[trigger] externals[k].local_path@),
    decreases externals.len(),
{
    if externals.len() > 0 && !ends_with(path, externals[0].local_path@) {
        lemma_first_match_bounds(path, externals.drop_first());
        assert forall|k: int|
            0 <= k < (if first_match(path, externals) < 0 {
                externals.len() as int
            } else {
                first_match(path, externals)
            }) implies !ends_with(path, #[trigger] externals[k].local_path@) by {
            if k > 0 {
                assert(externals[k] == externals.drop_first()[k - 1]);
            }
        }
    }
}

/// The index of the first external file stored at a path that `path` ends with.
fn find_first_match(path: &str, externals: &Vec<ExternalFileTime>) -> (res: Option<usize>)
    ensures
        match res {
            Some(k) => k == first_match(path@, externals@) && k < externals@.len(),
            None => first_match(path@, externals@) == -1,
        },
{
    proof {
        lemma_first_match_bounds(path@, externals@);
    }
    let mut k: usize = 0;
    while k < externals.len()
        invariant
            k <= externals@.len(),
            forall|j: int| 0 <= j < k ==> !ends_with(path@, #[trigger] externals@[j].local_path@),
            -1 <= first_match(path@, externals@) < externals@.len(),
            first_match(path@, externals@) >= 0 ==> ends_with(
                path@,
                externals@[first_match(path@, externals@)].local_path@,
            ),
            forall|j: int|
                0 <= j < (if first_match(path@, externals@) < 0 {
                    externals@.len() as int
                } else {
                    first_match(path@, externals@)
                }) ==> !ends_with(path@, #[trigger] externals@[j].local_path@),
        decreases externals@.len() - k,
    {
        if str_ends_with(path, externals[k].local_path.as_str()) {
            return Some(k);
        }
        k += 1;
    }
    None
}

/// Compare the modification times of the files on an external API with those of their local
/// copies, each local document matched with the first external file whose local path its path
/// ends with. Returns every document whose external file was modified later.
pub fn outdated_documents(locals: &Vec<LocalDocumentTime>, externals: &Vec<ExternalFileTime>) -> (res:
    Vec<OutdatedDocument>)
    ensures
        res@.map_values(|d: OutdatedDocument| outdated_view(d)) == outdated_spec(locals@, externals@),
{
    let mut outdated: Vec<OutdatedDocument> = Vec::new();
    for i in 0..locals.len()
        invariant
            outdated@.map_values(|d: OutdatedDocument| outdated_view(d)) == outdated_spec(
                locals@.take(i as int),
                externals@,
            ),
    {
        let local = &locals[i];
        proof {
            assert(locals@.take(i + 1).drop_last() =~= locals@.take(i as int));
            assert(locals@.take(i + 1).last() == locals@[i as int]);
        }
        let ghost before = outdated@.map_values(|d: OutdatedDocument| outdated_view(d));
        match find_first_match(local.path.as_str(), externals) {
            Some(k) => {
                let ext = &externals[k];
                match ext.modified_at {
                    Some(t) => {
                        if later(t, local.updated_at) {
                            outdated.push(
                                OutdatedDocument::new(
                                    local.id,
                                    ext.external_id.clone(),
                                    ext.name.clone(),
                                    local.updated_at,
                                    t,
                                ),
                            );
                            proof {
                                assert(outdated@.map_values(|d: OutdatedDocument| outdated_view(d))
                                    =~= before.push(
                                    (
                                        local.id,
                                        ext.external_id@,
                                        ext.name@,
                                        local.updated_at,
                                        t,
                                    ),
                                ));
                            }
                        }
                    },
                    None => {},
                }
            },
            None => {},
        }
    }
    proof {
        assert(locals@.take(locals@.len() as int) =~= locals@);
    }
    outdated
}

} // verus!
