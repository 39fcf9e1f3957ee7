use ropds::scanner::steps::{
    file_scan_step, inpx_group_step, inpx_scan_step, outcome_counter, scan_run_step, zip_scan_step,
    ArchiveOutcome, FileScanAction, FileScanEvent, FileScanState, InpxGroupAction, InpxGroupEvent,
    InpxGroupState, InpxScanAction, InpxScanEvent, InpxScanState, ScanRunAction, ScanRunEvent,
    ScanRunState, ZipScanAction, ZipScanEvent, ZipScanState,
};
use ropds::scanner::walk::{scan_entries, ScanEntry};
use ropds::scanner::ScanCounter;

#[test]
fn zip_archive_with_known_new_and_broken_entries() {
    let (s, a, _) = zip_scan_step(false, ZipScanState::Start, ZipScanEvent::Begin);
    assert_eq!(a, ZipScanAction::CheckCatalog);
    let (s, a, _) = zip_scan_step(false, s, ZipScanEvent::CatalogChecked { unchanged: false });
    assert_eq!(a, ZipScanAction::EnsureCatalog);
    let (s, a, _) = zip_scan_step(false, s, ZipScanEvent::CatalogReady);
    assert_eq!(a, ZipScanAction::ReadEntries);
    let (s, a, c) = zip_scan_step(false, s, ZipScanEvent::EntriesRead { count: 3 });
    assert_eq!((a, c), (ZipScanAction::FindBook { index: 0 }, None));
    let (s, a, _) = zip_scan_step(false, s, ZipScanEvent::BookFound { existing: Some(42) });
    assert_eq!(a, ZipScanAction::ConfirmBook { book_id: 42 });
    let (s, a, c) = zip_scan_step(false, s, ZipScanEvent::BookConfirmed);
    assert_eq!((a, c), (ZipScanAction::FindBook { index: 1 }, Some(ScanCounter::BooksSkipped)));
    let (s, a, _) = zip_scan_step(false, s, ZipScanEvent::BookFound { existing: None });
    assert_eq!(a, ZipScanAction::ParseEntry { index: 1 });
    let (s, a, c) = zip_scan_step(false, s, ZipScanEvent::EntryParsed { ok: false });
    assert_eq!((a, c), (ZipScanAction::FindBook { index: 2 }, Some(ScanCounter::Errors)));
    let (s, _, _) = zip_scan_step(false, s, ZipScanEvent::BookFound { existing: None });
    let (s, a, _) = zip_scan_step(false, s, ZipScanEvent::EntryParsed { ok: true });
    assert_eq!(a, ZipScanAction::InsertBook { index: 2 });
    let (s, a, c) = zip_scan_step(false, s, ZipScanEvent::BookInserted);
    assert_eq!(s, ZipScanState::Done);
    assert_eq!(a, ZipScanAction::Finish { outcome: ArchiveOutcome::Scanned });
    assert_eq!(c, Some(ScanCounter::BooksAdded));
    assert_eq!(outcome_counter(ArchiveOutcome::Scanned), ScanCounter::ArchivesScanned);
}

#[test]
fn unchanged_or_invalid_zip_archives() {
    let (s, a, _) = zip_scan_step(true, ZipScanState::CheckingCatalog, ZipScanEvent::CatalogChecked { unchanged: true });
    assert_eq!(a, ZipScanAction::ConfirmArchive);
    let (_, a, _) = zip_scan_step(true, s, ZipScanEvent::ArchiveConfirmed { updated: 5 });
    assert_eq!(a, ZipScanAction::Finish { outcome: ArchiveOutcome::Skipped });
    let (s, a, _) = zip_scan_step(true, s, ZipScanEvent::ArchiveConfirmed { updated: 0 });
    assert_eq!(a, ZipScanAction::TestArchive);
    let (_, a, _) = zip_scan_step(true, s, ZipScanEvent::Tested { valid: false });
    assert_eq!(a, ZipScanAction::Finish { outcome: ArchiveOutcome::Invalid });
    assert_eq!(outcome_counter(ArchiveOutcome::Invalid), ScanCounter::Errors);
    let (_, a, _) = zip_scan_step(true, ZipScanState::Reading, ZipScanEvent::Failed);
    assert_eq!(a, ZipScanAction::Finish { outcome: ArchiveOutcome::Failed });
}

#[test]
fn inpx_group_sets_aside_unknown_books_then_inserts_them() {
    let (s, a, _) = inpx_group_step(InpxGroupState::Start, InpxGroupEvent::Begin { count: 2 });
    assert_eq!(a, InpxGroupAction::FindBook { index: 0 });
    let (s, a, _) = inpx_group_step(s, InpxGroupEvent::BookFound { existing: None });
    assert_eq!(a, InpxGroupAction::Hold { index: 0 });
    let (s, a, c) = inpx_group_step(s, InpxGroupEvent::Held);
    assert_eq!((a, c), (InpxGroupAction::FindBook { index: 1 }, None));
    let (s, _, _) = inpx_group_step(s, InpxGroupEvent::BookFound { existing: Some(9) });
    let (s, a, c) = inpx_group_step(s, InpxGroupEvent::BookConfirmed);
    assert_eq!((a, c), (InpxGroupAction::Enrich, Some(ScanCounter::BooksSkipped)));
    let (s, a, _) = inpx_group_step(s, InpxGroupEvent::Enriched);
    assert_eq!(a, InpxGroupAction::EnsureCatalog);
    let (s, a, _) = inpx_group_step(s, InpxGroupEvent::CatalogReady);
    assert_eq!(a, InpxGroupAction::InsertBook { index: 0 });
    let (s, a, c) = inpx_group_step(s, InpxGroupEvent::BookInserted { ok: false });
    assert_eq!(s, InpxGroupState::Done);
    assert_eq!((a, c), (InpxGroupAction::Finish { ok: true }, Some(ScanCounter::Errors)));
}

#[test]
fn inpx_group_of_known_books_ends_without_insertion() {
    let (s, _, _) = inpx_group_step(InpxGroupState::Start, InpxGroupEvent::Begin { count: 1 });
    let (s, _, _) = inpx_group_step(s, InpxGroupEvent::BookFound { existing: Some(3) });
    let (s, a, c) = inpx_group_step(s, InpxGroupEvent::BookConfirmed);
    assert_eq!(s, InpxGroupState::Done);
    assert_eq!((a, c), (InpxGroupAction::Finish { ok: true }, Some(ScanCounter::BooksSkipped)));
}

#[test]
fn single_file_scan() {
    let (s, a) = file_scan_step(FileScanState::Start, FileScanEvent::Begin);
    assert_eq!(a, FileScanAction::FindBook);
    let (s, a) = file_scan_step(s, FileScanEvent::BookFound { existing: None });
    assert_eq!(a, FileScanAction::ParseFile);
    let (_, a) = file_scan_step(s, FileScanEvent::Parsed { ok: false });
    assert_eq!(a, FileScanAction::Finish { counter: ScanCounter::Errors });
    let (s, _) = file_scan_step(s, FileScanEvent::Parsed { ok: true });
    let (s, a) = file_scan_step(s, FileScanEvent::CatalogReady);
    assert_eq!(a, FileScanAction::InsertBook);
    let (_, a) = file_scan_step(s, FileScanEvent::BookInserted);
    assert_eq!(a, FileScanAction::Finish { counter: ScanCounter::BooksAdded });
}

#[test]
fn inpx_index_scan() {
    let (s, _) = inpx_scan_step(InpxScanState::Start, InpxScanEvent::Begin);
    let (s, a) = inpx_scan_step(s, InpxScanEvent::CatalogChecked { unchanged: false });
    assert_eq!(a, InpxScanAction::EnsureCatalog);
    let (s, a) = inpx_scan_step(s, InpxScanEvent::CatalogReady);
    assert_eq!(a, InpxScanAction::ParseIndex);
    let (_, a) = inpx_scan_step(s, InpxScanEvent::Parsed { groups: 0 });
    assert_eq!(a, InpxScanAction::Finish { outcome: ArchiveOutcome::Scanned });
    let (s, a) = inpx_scan_step(s, InpxScanEvent::Parsed { groups: 2 });
    assert_eq!(a, InpxScanAction::ProcessGroups);
    let (_, a) = inpx_scan_step(s, InpxScanEvent::GroupsDone);
    assert_eq!(a, InpxScanAction::Finish { outcome: ArchiveOutcome::Scanned });
}

#[test]
fn whole_scan_deletes_logically_or_physically() {
    let (s, a, _) = scan_run_step(true, ScanRunState::Processing, ScanRunEvent::Processed);
    assert_eq!(a, ScanRunAction::DeleteLogically);
    let (s, a, d) = scan_run_step(true, s, ScanRunEvent::Deleted { count: 4 });
    assert_eq!((a, d), (ScanRunAction::DeleteEmptyCatalogs, Some(4)));
    let (s, a, _) = scan_run_step(true, s, ScanRunEvent::CatalogsCleaned);
    assert_eq!(a, ScanRunAction::UpdateCounters);
    let (_, a, _) = scan_run_step(true, s, ScanRunEvent::Counted);
    assert_eq!(a, ScanRunAction::Finish { ok: true });

    let (s, a, _) = scan_run_step(false, ScanRunState::Processing, ScanRunEvent::Processed);
    assert_eq!(a, ScanRunAction::CollectUnavailable);
    let (s, a, _) = scan_run_step(false, s, ScanRunEvent::Collected);
    assert_eq!(a, ScanRunAction::DeletePhysically);
    let (s, a, d) = scan_run_step(false, s, ScanRunEvent::Deleted { count: 2 });
    assert_eq!((a, d), (ScanRunAction::RemoveCovers, Some(2)));
    let (_, a, _) = scan_run_step(false, s, ScanRunEvent::Failed);
    assert_eq!(a, ScanRunAction::Finish { ok: false });
}

#[test]
fn walked_files_are_classified() {
    let paths: Vec<String> = vec![
        "a.fb2".to_string(),
        "sub/B.EPUB".to_string(),
        "sub/pack.zip".to_string(),
        "lib/index.INPX".to_string(),
        "lib/inside.fb2".to_string(),
        "notes.txt".to_string(),
        "noext".to_string(),
    ];
    let exts = vec!["FB2".to_string(), "epub".to_string()];
    let entries = scan_entries(&paths, &exts, true, true);
    assert_eq!(entries.len(), 4);
    assert!(matches!(&entries[0], ScanEntry::Inpx { file: 3, rel_path } if rel_path == "lib/index.INPX"));
    assert!(matches!(&entries[1], ScanEntry::File { file: 0, rel_path, filename, extension }
        if rel_path.is_empty() && filename == "a.fb2" && extension == "fb2"));
    assert!(matches!(&entries[2], ScanEntry::File { file: 1, rel_path, extension, .. }
        if rel_path == "sub" && extension == "epub"));
    assert!(matches!(&entries[3], ScanEntry::Zip { file: 2, rel_path } if rel_path == "sub"));

    let without_indexes = scan_entries(&paths, &exts, false, false);
    assert_eq!(without_indexes.len(), 3);
    assert!(matches!(&without_indexes[2], ScanEntry::File { file: 4, .. }));
}
