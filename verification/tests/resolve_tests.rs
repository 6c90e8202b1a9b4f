use flib_rs::query::{cap_hits, info_from_lookup, Hit, SEARCH_LIMIT};
use flib_rs::resolve::{resolve_step, ResolveError, ResolveEvent, ResolveState};

#[test]
fn unknown_id_fails_as_id_not_found() {
    let next = resolve_step(
        ResolveState::Lookup { id: 7 },
        ResolveEvent::LookupDone { archive_path: None },
    );
    assert!(matches!(
        next,
        ResolveState::Failed { error: ResolveError::IdNotFound { id: 7 } }
    ));
}

#[test]
fn missing_archive_fails_as_archive_missing() {
    let next = resolve_step(
        ResolveState::Lookup { id: 7 },
        ResolveEvent::LookupDone { archive_path: Some(b"arch/lib.a.zip".to_vec()) },
    );
    let state = match next {
        ResolveState::CheckArchive { id, archive_path } => {
            assert_eq!(id, 7);
            assert_eq!(archive_path, b"arch/lib.a.zip".to_vec());
            ResolveState::CheckArchive { id, archive_path }
        },
        _ => panic!("lookup success must move on to the archive check"),
    };
    let next = resolve_step(state, ResolveEvent::ArchiveChecked { exists: false });
    assert!(matches!(
        next,
        ResolveState::Failed { error: ResolveError::ArchiveMissing { id: 7 } }
    ));
}

#[test]
fn canonical_path_becomes_a_file_url() {
    let state = ResolveState::Locate { id: 7, archive_path: b"arch/lib.a.zip".to_vec() };
    let next = resolve_step(
        state,
        ResolveEvent::Canonicalized { path: Some(b"/data/arch/lib.a.zip".to_vec()) },
    );
    match next {
        ResolveState::ListEntries { id, location } => {
            assert_eq!(id, 7);
            assert_eq!(location, b"file:///data/arch/lib.a.zip".to_vec());
        },
        _ => panic!("an absolute path must become a file URL"),
    }
}

#[test]
fn relative_path_fails_as_bad_location() {
    let state = ResolveState::Locate { id: 7, archive_path: b"arch/lib.a.zip".to_vec() };
    let next = resolve_step(
        state,
        ResolveEvent::Canonicalized { path: Some(b"arch/lib.a.zip".to_vec()) },
    );
    assert!(matches!(
        next,
        ResolveState::Failed { error: ResolveError::BadLocation { id: 7 } }
    ));
    let state = ResolveState::Locate { id: 7, archive_path: b"arch/lib.a.zip".to_vec() };
    let next = resolve_step(state, ResolveEvent::Canonicalized { path: None });
    assert!(matches!(
        next,
        ResolveState::Failed { error: ResolveError::BadLocation { id: 7 } }
    ));
}

#[test]
fn entry_present_moves_to_extract() {
    let state = ResolveState::ListEntries { id: 5, location: b"file:///a.zip".to_vec() };
    let names = vec![b"4.fb2".to_vec(), b"5.fb2".to_vec()];
    let next = resolve_step(state, ResolveEvent::EntriesListed { names: Some(names) });
    match next {
        ResolveState::Extract { id, location, entry_name } => {
            assert_eq!(id, 5);
            assert_eq!(location, b"file:///a.zip".to_vec());
            assert_eq!(entry_name, b"5.fb2".to_vec());
        },
        _ => panic!("a listed entry must be extracted"),
    }
}

#[test]
fn entry_absent_fails_as_entry_not_found() {
    let state = ResolveState::ListEntries { id: 5, location: b"file:///a.zip".to_vec() };
    let names = vec![b"4.fb2".to_vec(), b"6.fb2".to_vec()];
    let next = resolve_step(state, ResolveEvent::EntriesListed { names: Some(names) });
    assert!(matches!(
        next,
        ResolveState::Failed { error: ResolveError::EntryNotFound { id: 5 } }
    ));
}

#[test]
fn primitive_faults_fail_as_extraction() {
    let state = ResolveState::ListEntries { id: 5, location: b"file:///a.zip".to_vec() };
    let next = resolve_step(state, ResolveEvent::EntriesListed { names: None });
    assert!(matches!(
        next,
        ResolveState::Failed { error: ResolveError::Extraction { id: 5 } }
    ));
    let state = ResolveState::Extract {
        id: 5,
        location: b"file:///a.zip".to_vec(),
        entry_name: b"5.fb2".to_vec(),
    };
    let next = resolve_step(state, ResolveEvent::ExtractFinished { ok: false });
    assert!(matches!(
        next,
        ResolveState::Failed { error: ResolveError::Extraction { id: 5 } }
    ));
}

#[test]
fn successful_extraction_ends_in_done() {
    let state = ResolveState::Extract {
        id: 5,
        location: b"file:///a.zip".to_vec(),
        entry_name: b"5.fb2".to_vec(),
    };
    let next = resolve_step(state, ResolveEvent::ExtractFinished { ok: true });
    assert!(matches!(next, ResolveState::Done { id: 5 }));
}

#[test]
fn search_results_are_capped_at_ten() {
    let mut hits = Vec::new();
    for i in 0..12u64 {
        hits.push(Hit { id: i, author: b"a".to_vec(), title: b"t".to_vec() });
    }
    let capped = cap_hits(hits);
    assert_eq!(capped.len(), SEARCH_LIMIT);
    for (i, h) in capped.iter().enumerate() {
        assert_eq!(h.id, i as u64);
    }
    let few = vec![Hit { id: 3, author: b"a".to_vec(), title: b"t".to_vec() }];
    assert_eq!(cap_hits(few).len(), 1);
}

#[test]
fn point_lookup_fails_explicitly() {
    let hit = info_from_lookup(5, Some((b"Book One".to_vec(), b"Doe J.".to_vec())));
    assert_eq!(hit.unwrap(), (b"Book One".to_vec(), b"Doe J.".to_vec()));
    let miss = info_from_lookup(9, None);
    assert_eq!(miss.unwrap_err(), ResolveError::IdNotFound { id: 9 });
}
