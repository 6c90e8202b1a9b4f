//! Resolution of an identifier to one entry inside a per-book archive.
//!
//! The resolver is a state machine: every decision stands here, verified,
//! while the index lookup, the filesystem checks and the partial-extraction
//! primitive run outside and hand their outcomes back as events. One pass
//! runs Lookup, CheckArchive, Locate, ListEntries, Extract; each missing
//! precondition fails with its own distinct error, never a crash.

use vstd::prelude::*;
use crate::naming::spec_entry_name;
use crate::naming::entry_name_for;

verus! {

/// Why resolution failed. Each condition is distinct and never conflated.
#[derive(Debug, Clone, Copy, PartialEq, Eq, Structural)]
pub enum ResolveError {
    /// The index holds no document with this identifier.
    IdNotFound { id: u64 },
    /// The archive path stored for the identifier names no existing file.
    ArchiveMissing { id: u64 },
    /// The stored archive path could not be canonicalized into a location
    /// the extraction primitive accepts.
    BadLocation { id: u64 },
    /// The archive exists but holds no entry under the derived name.
    EntryNotFound { id: u64 },
    /// The extraction primitive itself failed to open, list or extract.
    Extraction { id: u64 },
}

/// Where one resolution stands.
pub enum ResolveState {
    /// Ask the index for the archive path of `id`.
    Lookup { id: u64 },
    /// Ask whether the file at `archive_path` exists.
    CheckArchive { id: u64, archive_path: Vec<u8> },
    /// Ask for the canonical form of `archive_path`.
    Locate { id: u64, archive_path: Vec<u8> },
    /// Ask the extraction primitive at `location` for its entry names.
    ListEntries { id: u64, location: Vec<u8> },
    /// Ask the extraction primitive to stream the entry `entry_name`.
    Extract { id: u64, location: Vec<u8>, entry_name: Vec<u8> },
    /// The entry was extracted.
    Done { id: u64 },
    /// Resolution failed; no further step follows.
    Failed { error: ResolveError },
}

/// What the outside work reported back for the pending state.
pub enum ResolveEvent {
    /// The index's answer: the stored archive path, if any document matched.
    LookupDone { archive_path: Option<Vec<u8>> },
    /// Whether the archive file exists on disk.
    ArchiveChecked { exists: bool },
    /// The canonical absolute path of the archive, if canonicalization
    /// succeeded.
    Canonicalized { path: Option<Vec<u8>> },
    /// The entry names inside the archive, or `None` when the primitive
    /// could not open the archive or list them.
    EntriesListed { names: Option<Vec<Vec<u8>>> },
    /// Whether the primitive streamed the entry's bytes to the sink.
    ExtractFinished { ok: bool },
}

/// Which event answers which state.
pub open spec fn event_fits(state: ResolveState, event: ResolveEvent) -> bool {
    match (state, event) {
        (ResolveState::Lookup { .. }, ResolveEvent::LookupDone { .. }) => true,
        (ResolveState::CheckArchive { .. }, ResolveEvent::ArchiveChecked { .. }) => true,
        (ResolveState::Locate { .. }, ResolveEvent::Canonicalized { .. }) => true,
        (ResolveState::ListEntries { .. }, ResolveEvent::EntriesListed { .. }) => true,
        (ResolveState::Extract { .. }, ResolveEvent::ExtractFinished { .. }) => true,
        _ => false,
    }
}

/// The "file" URL scheme prefix, "file://" as bytes.
pub open spec fn file_scheme() -> Seq<u8> {
    seq![102u8, 105u8, 108u8, 101u8, 58u8, 47u8, 47u8]
}

pub open spec fn starts_with(s: Seq<u8>, prefix: Seq<u8>) -> bool {
    s.len() >= prefix.len() && s.subrange(0, prefix.len() as int) == prefix
}

/// Relies on url::Url::from_file_path and Url::as_str: an absolute path
/// becomes a URL whose serialization starts with "file://"; a path that is
/// not absolute is refused. Which paths count as absolute, and how their
/// segments are percent-encoded, is the url crate's affair and depends on
/// the platform, so nothing more is claimed of the result.
#[verifier::external_body]
fn file_url_bytes(path: &[u8]) -> (r: Option<Vec<u8>>)
    ensures
        r matches Some(u) ==> starts_with(u@, file_scheme()),
{
    let text = String::from_utf8_lossy(path);
    match url::Url::from_file_path(&*text) {
        Ok(u) => Some(u.as_str().as_bytes().to_vec()),
        Err(()) => None,
    }
}

/// Whether `names` holds `t`.
pub open spec fn has_name(names: Seq<Seq<u8>>, t: Seq<u8>) -> bool {
    exists|i: int| 0 <= i < names.len() && names[i] == t
}

/// Byte-string equality.
pub fn bytes_eq(a: &[u8], b: &[u8]) -> (r: bool)
    ensures
        r == (a@ == b@),
{
    if a.len() != b.len() {
        proof {
            assert(a@.len() != b@.len());
        }
        return false;
    }
    let mut i: usize = 0;
    while i < a.len()
        invariant
            0 <= i <= a@.len(),
            a@.len() == b@.len(),
            forall|j: int| 0 <= j < i ==> a@[j] == b@[j],
        decreases a@.len() - i,
    {
        if a[i] != b[i] {
            return false;
        }
        i = i + 1;
    }
    proof {
        assert(a@ =~= b@);
    }
    true
}

/// Whether one of `names` equals `target`.
pub fn contains_name(names: &Vec<Vec<u8>>, target: &[u8]) -> (r: bool)
    ensures
        r == has_name(names@.map_values(|n: Vec<u8>| n@), target@),
{
    let ghost views = names@.map_values(|n: Vec<u8>| n@);
    let mut i: usize = 0;
    while i < names.len()
        invariant
            0 <= i <= names@.len(),
            views == names@.map_values(|n: Vec<u8>| n@),
            forall|j: int| 0 <= j < i ==> views[j] != target@,
        decreases names@.len() - i,
    {
        if bytes_eq(names[i].as_slice(), target) {
            proof {
                assert(views[i as int] == target@);
            }
            return true;
        }
        i = i + 1;
    }
    false
}

/// Advances one resolution by one outside outcome.
///
/// Every failure is explicit and distinct: an identifier the index does not
/// hold fails as `IdNotFound`; a stored path without a file behind it as
/// `ArchiveMissing`; an archive without the derived entry name as
/// `EntryNotFound`; a path the url crate refuses as `BadLocation`; a fault
/// of the extraction primitive as `Extraction`. Success hands the next
/// outside task on, down to `Done`.
pub fn resolve_step(state: ResolveState, event: ResolveEvent) -> (next: ResolveState)
    requires
        event_fits(state, event),
    ensures
        state matches ResolveState::Lookup { id } ==> {
            &&& (event matches ResolveEvent::LookupDone { archive_path: None } ==> next
                == (ResolveState::Failed { error: ResolveError::IdNotFound { id } }))
            &&& (event matches ResolveEvent::LookupDone { archive_path: Some(p) } ==> (
            next matches ResolveState::CheckArchive { id: nid, archive_path } && nid == id
                && archive_path@ == p@))
        },
        state matches ResolveState::CheckArchive { id, archive_path } ==> {
            &&& (event matches ResolveEvent::ArchiveChecked { exists: false } ==> next
                == (ResolveState::Failed { error: ResolveError::ArchiveMissing { id } }))
            &&& (event matches ResolveEvent::ArchiveChecked { exists: true } ==> (
            next matches ResolveState::Locate { id: nid, archive_path: np } && nid == id
                && np@ == archive_path@))
        },
        state matches ResolveState::Locate { id, archive_path } ==> {
            &&& (event matches ResolveEvent::Canonicalized { path: None } ==> next
                == (ResolveState::Failed { error: ResolveError::BadLocation { id } }))
            &&& (event matches ResolveEvent::Canonicalized { path: Some(c) } ==> (
            (next matches ResolveState::ListEntries { id: nid, location } && nid == id
                && starts_with(location@, file_scheme())) || next == (ResolveState::Failed {
                error: ResolveError::BadLocation { id },
            })))
        },
        state matches ResolveState::ListEntries { id, location } ==> {
            &&& (event matches ResolveEvent::EntriesListed { names: None } ==> next
                == (ResolveState::Failed { error: ResolveError::Extraction { id } }))
            &&& (event matches ResolveEvent::EntriesListed { names: Some(ns) } ==> (if has_name(
                ns@.map_values(|n: Vec<u8>| n@),
                spec_entry_name(id),
            ) {
                next matches ResolveState::Extract { id: nid, location: nl, entry_name }
                    && nid == id && nl@ == location@ && entry_name@ == spec_entry_name(id)
            } else {
                next == (ResolveState::Failed { error: ResolveError::EntryNotFound { id } })
            }))
        },
        state matches ResolveState::Extract { id, .. } ==> {
            &&& (event matches ResolveEvent::ExtractFinished { ok: true } ==> next
                == (ResolveState::Done { id }))
            &&& (event matches ResolveEvent::ExtractFinished { ok: false } ==> next
                == (ResolveState::Failed { error: ResolveError::Extraction { id } }))
        },
{
    match (state, event) {
        (ResolveState::Lookup { id }, ResolveEvent::LookupDone { archive_path }) => {
            match archive_path {
                None => ResolveState::Failed { error: ResolveError::IdNotFound { id } },
                Some(p) => ResolveState::CheckArchive { id, archive_path: p },
            }
        },
        (ResolveState::CheckArchive { id, archive_path }, ResolveEvent::ArchiveChecked {
            exists,
        }) => {
            if exists {
                ResolveState::Locate { id, archive_path }
            } else {
                ResolveState::Failed { error: ResolveError::ArchiveMissing { id } }
            }
        },
        (ResolveState::Locate { id, .. }, ResolveEvent::Canonicalized { path }) => {
            match path {
                None => ResolveState::Failed { error: ResolveError::BadLocation { id } },
                Some(c) => match file_url_bytes(c.as_slice()) {
                    None => ResolveState::Failed { error: ResolveError::BadLocation { id } },
                    Some(location) => ResolveState::ListEntries { id, location },
                },
            }
        },
        (ResolveState::ListEntries { id, location }, ResolveEvent::EntriesListed { names }) => {
            match names {
                None => ResolveState::Failed { error: ResolveError::Extraction { id } },
                Some(ns) => {
                    let entry_name = entry_name_for(id);
                    if contains_name(&ns, entry_name.as_slice()) {
                        ResolveState::Extract { id, location, entry_name }
                    } else {
                        ResolveState::Failed { error: ResolveError::EntryNotFound { id } }
                    }
                },
            }
        },
        (ResolveState::Extract { id, .. }, ResolveEvent::ExtractFinished { ok }) => {
            if ok {
                ResolveState::Done { id }
            } else {
                ResolveState::Failed { error: ResolveError::Extraction { id } }
            }
        },
        (s, _) => s,
    }
}

} // verus!
