//! The decisions of a scan between its database and file steps. Each machine
//! takes where the work stands and what the last step gave, and returns where
//! it stands next and what to do; the caller performs the step.
use vstd::prelude::*;
use super::ScanCounter;

verus! {

// ---------------------------------------------------------------------------
// ZIP archives
// ---------------------------------------------------------------------------

/// How the scan of an archive ended.
#[derive(Debug, Clone, Copy, PartialEq, Eq, Structural)]
pub enum ArchiveOutcome {
    /// Every entry was handled.
    Scanned,
    /// The archive is unchanged since the last scan; its books were confirmed.
    Skipped,
    /// The archive failed its integrity test.
    Invalid,
    /// A database or file step failed.
    Failed,
}

/// The statistics counter an archive outcome increments.
pub open spec fn outcome_counter_spec(o: ArchiveOutcome) -> ScanCounter {
    match o {
        ArchiveOutcome::Scanned => ScanCounter::ArchivesScanned,
        ArchiveOutcome::Skipped => ScanCounter::ArchivesSkipped,
        ArchiveOutcome::Invalid => ScanCounter::Errors,
        ArchiveOutcome::Failed => ScanCounter::Errors,
    }
}

pub fn outcome_counter(o: ArchiveOutcome) -> (r: ScanCounter)
    ensures
        r == outcome_counter_spec(o),
{
    match o {
        ArchiveOutcome::Scanned => ScanCounter::ArchivesScanned,
        ArchiveOutcome::Skipped => ScanCounter::ArchivesSkipped,
        ArchiveOutcome::Invalid => ScanCounter::Errors,
        ArchiveOutcome::Failed => ScanCounter::Errors,
    }
}

/// Where the scan of a ZIP archive stands. `index` is the entry being handled
/// among the `count` book entries read from the archive.
#[derive(Debug, Clone, Copy, PartialEq, Eq, Structural)]
pub enum ZipScanState {
    Start,
    /// Looking the archive up in the catalogue.
    CheckingCatalog,
    /// Confirming the books of an unchanged archive.
    ConfirmingArchive,
    /// Testing the archive's integrity.
    Testing,
    /// Recording the archive in the catalogue.
    OpeningCatalog,
    /// Reading the book entries.
    Reading,
    /// Looking the entry's book up.
    LookingUp { index: usize, count: usize },
    /// Confirming the entry's book, already known.
    Confirming { index: usize, count: usize },
    /// Parsing the entry's metadata.
    Parsing { index: usize, count: usize },
    /// Inserting the entry's book.
    Inserting { index: usize, count: usize },
    Done,
}

/// What the last step gave.
#[derive(Debug, Clone, Copy, PartialEq, Eq, Structural)]
pub enum ZipScanEvent {
    Begin,
    /// Whether the catalogue records the archive unchanged (`archive_unchanged`).
    CatalogChecked { unchanged: bool },
    /// How many books of the archive were confirmed.
    ArchiveConfirmed { updated: u64 },
    Tested { valid: bool },
    CatalogReady,
    /// How many book entries the archive holds.
    EntriesRead { count: usize },
    /// The id of the entry's book when it is already known.
    BookFound { existing: Option<i64> },
    BookConfirmed,
    /// Whether the entry's metadata could be parsed.
    EntryParsed { ok: bool },
    BookInserted,
    /// A database or file step failed.
    Failed,
}

/// What to do next.
#[derive(Debug, Clone, Copy, PartialEq, Eq, Structural)]
pub enum ZipScanAction {
    CheckCatalog,
    ConfirmArchive,
    TestArchive,
    EnsureCatalog,
    ReadEntries,
    FindBook { index: usize },
    ConfirmBook { book_id: i64 },
    ParseEntry { index: usize },
    InsertBook { index: usize },
    Finish { outcome: ArchiveOutcome },
}

/// After the archive was found changed (or none of its books was confirmed):
/// its integrity is tested first when `test_zip` is set.
pub open spec fn zip_open_or_test(test_zip: bool) -> (ZipScanState, ZipScanAction) {
    if test_zip {
        (ZipScanState::Testing, ZipScanAction::TestArchive)
    } else {
        (ZipScanState::OpeningCatalog, ZipScanAction::EnsureCatalog)
    }
}

/// After entry `index`: the next entry, or the end of a scanned archive.
pub open spec fn zip_next_entry(index: usize, count: usize) -> (ZipScanState, ZipScanAction) {
    if index + 1 < count {
        (
            ZipScanState::LookingUp { index: (index + 1) as usize, count },
            ZipScanAction::FindBook { index: (index + 1) as usize },
        )
    } else {
        (ZipScanState::Done, ZipScanAction::Finish { outcome: ArchiveOutcome::Scanned })
    }
}

/// One step of scanning a ZIP archive: the next state, the action, and the
/// counter to increment for the entry this step finished, if any. An unchanged
/// archive whose books were confirmed is skipped; with `test_zip` an archive
/// failing its test counts as an error; each entry whose book is known is
/// confirmed and skipped, each entry that cannot be parsed counts as an error,
/// and the others are inserted. A failed step ends the archive.
pub open spec fn zip_scan_step_spec(test_zip: bool, state: ZipScanState, event: ZipScanEvent) -> (
    ZipScanState,
    ZipScanAction,
    Option<ScanCounter>,
) {
    let fail = (ZipScanState::Done, ZipScanAction::Finish { outcome: ArchiveOutcome::Failed }, None);
    match (state, event) {
        (ZipScanState::Start, ZipScanEvent::Begin) => (
            ZipScanState::CheckingCatalog,
            ZipScanAction::CheckCatalog,
            None,
        ),
        (ZipScanState::CheckingCatalog, ZipScanEvent::CatalogChecked { unchanged }) => if unchanged {
            (ZipScanState::ConfirmingArchive, ZipScanAction::ConfirmArchive, None)
        } else {
            (zip_open_or_test(test_zip).0, zip_open_or_test(test_zip).1, None)
        },
        (ZipScanState::ConfirmingArchive, ZipScanEvent::ArchiveConfirmed { updated }) => if updated
            > 0 {
            (ZipScanState::Done, ZipScanAction::Finish { outcome: ArchiveOutcome::Skipped }, None)
        } else {
            (zip_open_or_test(test_zip).0, zip_open_or_test(test_zip).1, None)
        },
        (ZipScanState::Testing, ZipScanEvent::Tested { valid }) => if valid {
            (ZipScanState::OpeningCatalog, ZipScanAction::EnsureCatalog, None)
        } else {
            (ZipScanState::Done, ZipScanAction::Finish { outcome: ArchiveOutcome::Invalid }, None)
        },
        (ZipScanState::OpeningCatalog, ZipScanEvent::CatalogReady) => (
            ZipScanState::Reading,
            ZipScanAction::ReadEntries,
            None,
        ),
        (ZipScanState::Reading, ZipScanEvent::EntriesRead { count }) => if count > 0 {
            (ZipScanState::LookingUp { index: 0, count }, ZipScanAction::FindBook { index: 0 }, None)
        } else {
            (ZipScanState::Done, ZipScanAction::Finish { outcome: ArchiveOutcome::Scanned }, None)
        },
        (ZipScanState::LookingUp { index, count }, ZipScanEvent::BookFound { existing }) =>
            match existing {
            Some(id) => (
                ZipScanState::Confirming { index, count },
                ZipScanAction::ConfirmBook { book_id: id },
                None,
            ),
            None => (
                ZipScanState::Parsing { index, count },
                ZipScanAction::ParseEntry { index },
                None,
            ),
        },
        (ZipScanState::Confirming { index, count }, ZipScanEvent::BookConfirmed) => (
            zip_next_entry(index, count).0,
            zip_next_entry(index, count).1,
            Some(ScanCounter::BooksSkipped),
        ),
        (ZipScanState::Parsing { index, count }, ZipScanEvent::EntryParsed { ok }) => if ok {
            (
                ZipScanState::Inserting { index, count },
                ZipScanAction::InsertBook { index },
                None,
            )
        } else {
            (zip_next_entry(index, count).0, zip_next_entry(index, count).1, Some(ScanCounter::Errors))
        },
        (ZipScanState::Inserting { index, count }, ZipScanEvent::BookInserted) => (
            zip_next_entry(index, count).0,
            zip_next_entry(index, count).1,
            Some(ScanCounter::BooksAdded),
        ),
        _ => fail,
    }
}

fn zip_open_or_test_exec(test_zip: bool) -> (r: (ZipScanState, ZipScanAction))
    ensures
        r == zip_open_or_test(test_zip),
{
    if test_zip {
        (ZipScanState::Testing, ZipScanAction::TestArchive)
    } else {
        (ZipScanState::OpeningCatalog, ZipScanAction::EnsureCatalog)
    }
}

fn zip_next_entry_exec(index: usize, count: usize) -> (r: (ZipScanState, ZipScanAction))
    ensures
        r == zip_next_entry(index, count),
{
    if count > 0 && index < count - 1 {
        (
            ZipScanState::LookingUp { index: index + 1, count },
            ZipScanAction::FindBook { index: index + 1 },
        )
    } else {
        (ZipScanState::Done, ZipScanAction::Finish { outcome: ArchiveOutcome::Scanned })
    }
}

/// One step of scanning a ZIP archive.
pub fn zip_scan_step(test_zip: bool, state: ZipScanState, event: ZipScanEvent) -> (r: (
    ZipScanState,
    ZipScanAction,
    Option<ScanCounter>,
))
    ensures
        r == zip_scan_step_spec(test_zip, state, event),
{
    let fail = (ZipScanState::Done, ZipScanAction::Finish { outcome: ArchiveOutcome::Failed }, None);
    match (state, event) {
        (ZipScanState::Start, ZipScanEvent::Begin) => (
            ZipScanState::CheckingCatalog,
            ZipScanAction::CheckCatalog,
            None,
        ),
        (ZipScanState::CheckingCatalog, ZipScanEvent::CatalogChecked { unchanged }) => if unchanged {
            (ZipScanState::ConfirmingArchive, ZipScanAction::ConfirmArchive, None)
        } else {
            let (s, a) = zip_open_or_test_exec(test_zip);
            (s, a, None)
        },
        (ZipScanState::ConfirmingArchive, ZipScanEvent::ArchiveConfirmed { updated }) => if updated
            > 0 {
            (ZipScanState::Done, ZipScanAction::Finish { outcome: ArchiveOutcome::Skipped }, None)
        } else {
            let (s, a) = zip_open_or_test_exec(test_zip);
            (s, a, None)
        },
        (ZipScanState::Testing, ZipScanEvent::Tested { valid }) => if valid {
            (ZipScanState::OpeningCatalog, ZipScanAction::EnsureCatalog, None)
        } else {
            (ZipScanState::Done, ZipScanAction::Finish { outcome: ArchiveOutcome::Invalid }, None)
        },
        (ZipScanState::OpeningCatalog, ZipScanEvent::CatalogReady) => (
            ZipScanState::Reading,
            ZipScanAction::ReadEntries,
            None,
        ),
        (ZipScanState::Reading, ZipScanEvent::EntriesRead { count }) => if count > 0 {
            (ZipScanState::LookingUp { index: 0, count }, ZipScanAction::FindBook { index: 0 }, None)
        } else {
            (ZipScanState::Done, ZipScanAction::Finish { outcome: ArchiveOutcome::Scanned }, None)
        },
        (ZipScanState::LookingUp { index, count }, ZipScanEvent::BookFound { existing }) =>
            match existing {
            Some(id) => (
                ZipScanState::Confirming { index, count },
                ZipScanAction::ConfirmBook { book_id: id },
                None,
            ),
            None => (
                ZipScanState::Parsing { index, count },
                ZipScanAction::ParseEntry { index },
                None,
            ),
        },
        (ZipScanState::Confirming { index, count }, ZipScanEvent::BookConfirmed) => {
            let (s, a) = zip_next_entry_exec(index, count);
            (s, a, Some(ScanCounter::BooksSkipped))
        },
        (ZipScanState::Parsing { index, count }, ZipScanEvent::EntryParsed { ok }) => if ok {
            (
                ZipScanState::Inserting { index, count },
                ZipScanAction::InsertBook { index },
                None,
            )
        } else {
            let (s, a) = zip_next_entry_exec(index, count);
            (s, a, Some(ScanCounter::Errors))
        },
        (ZipScanState::Inserting { index, count }, ZipScanEvent::BookInserted) => {
            let (s, a) = zip_next_entry_exec(index, count);
            (s, a, Some(ScanCounter::BooksAdded))
        },
        _ => fail,
    }
}

/// The entry a state of the entry phase is handling.
pub open spec fn zip_entry_of(s: ZipScanState) -> Option<(usize, usize)> {
    match s {
        ZipScanState::LookingUp { index, count } => Some((index, count)),
        ZipScanState::Confirming { index, count } => Some((index, count)),
        ZipScanState::Parsing { index, count } => Some((index, count)),
        ZipScanState::Inserting { index, count } => Some((index, count)),
        _ => None,
    }
}

pub open spec fn is_entry_counter(c: ScanCounter) -> bool {
    c == ScanCounter::BooksAdded || c == ScanCounter::BooksSkipped || c == ScanCounter::Errors
}

/// Every entry of an archive is counted once: a step of the entry phase that
/// moves on from entry `index` (to the next entry, or to the end of a scanned
/// archive) counts it as added, skipped or failed, and a step that stays on
/// it, or ends the archive on a failure, counts nothing. Entries are handled
/// in order, each one after the last.
pub proof fn lemma_zip_entries_counted_once(test_zip: bool, s: ZipScanState, e: ZipScanEvent)
    requires
        zip_entry_of(s) matches Some((index, count)) && index < count,
    ensures
        ({
            let (n, a, c) = zip_scan_step_spec(test_zip, s, e);
            let (index, count) = zip_entry_of(s)->0;
            let moved_on = zip_entry_of(n) == Some(((index + 1) as usize, count)) || (index + 1
                == count && a == ZipScanAction::Finish { outcome: ArchiveOutcome::Scanned });
            &&& c is Some <==> moved_on
            &&& c matches Some(k) ==> is_entry_counter(k)
            &&& zip_entry_of(n) matches Some((j, m)) ==> m == count && (j == index || j == index + 1)
            &&& n == ZipScanState::Done || zip_entry_of(n) is Some
        }),
{
}

// ---------------------------------------------------------------------------
// Books of an INPX index stored in one archive
// ---------------------------------------------------------------------------

/// Where the handling of the records of one archive named by an INPX index
/// stands. Records whose book is not known yet are set aside (`pending` of
/// them so far), then inserted in the order they were set aside.
#[derive(Debug, Clone, Copy, PartialEq, Eq, Structural)]
pub enum InpxGroupState {
    Start,
    /// Looking record `index` up among `count` records.
    LookingUp { index: usize, count: usize, pending: usize },
    /// Confirming the known book of record `index`.
    Confirming { index: usize, count: usize, pending: usize },
    /// Setting record `index` aside for insertion.
    Holding { index: usize, count: usize, pending: usize },
    /// Reading the metadata of the set-aside books from their archive.
    Enriching { pending: usize },
    /// Recording the archive in the catalogue.
    OpeningCatalog { pending: usize },
    /// Inserting set-aside book `index`.
    Inserting { index: usize, pending: usize },
    Done,
}

#[derive(Debug, Clone, Copy, PartialEq, Eq, Structural)]
pub enum InpxGroupEvent {
    /// The number of records of the archive.
    Begin { count: usize },
    BookFound { existing: Option<i64> },
    BookConfirmed,
    Held,
    /// Metadata read, or not (a missing or unreadable archive is no failure).
    Enriched,
    CatalogReady,
    /// Whether the insertion succeeded.
    BookInserted { ok: bool },
    Failed,
}

#[derive(Debug, Clone, Copy, PartialEq, Eq, Structural)]
pub enum InpxGroupAction {
    FindBook { index: usize },
    ConfirmBook { book_id: i64 },
    /// Set record `index` aside.
    Hold { index: usize },
    Enrich,
    EnsureCatalog,
    /// Insert set-aside book `index`, its metadata enriched (`enrich_meta`).
    InsertBook { index: usize },
    /// Done; `ok` is false when a step failed.
    Finish { ok: bool },
}

/// After record `index` was looked at: the next record, or the insertion of
/// the set-aside books, or the end when none was set aside.
pub open spec fn group_next_record(index: usize, count: usize, pending: usize) -> (
    InpxGroupState,
    InpxGroupAction,
) {
    if index + 1 < count {
        (
            InpxGroupState::LookingUp { index: (index + 1) as usize, count, pending },
            InpxGroupAction::FindBook { index: (index + 1) as usize },
        )
    } else if pending == 0 {
        (InpxGroupState::Done, InpxGroupAction::Finish { ok: true })
    } else {
        (InpxGroupState::Enriching { pending }, InpxGroupAction::Enrich)
    }
}

/// After set-aside book `index` was inserted (or failed to be).
pub open spec fn group_next_insert(index: usize, pending: usize) -> (InpxGroupState, InpxGroupAction) {
    if index + 1 < pending {
        (
            InpxGroupState::Inserting { index: (index + 1) as usize, pending },
            InpxGroupAction::InsertBook { index: (index + 1) as usize },
        )
    } else {
        (InpxGroupState::Done, InpxGroupAction::Finish { ok: true })
    }
}

/// One step of handling the records of one archive of an INPX index: known
/// books are confirmed and skipped, the others are set aside, enriched with
/// the metadata of their archive where it can be read, and inserted; a failed
/// insertion counts as an error and the next book is inserted; any other
/// failed step ends the group.
pub open spec fn inpx_group_step_spec(state: InpxGroupState, event: InpxGroupEvent) -> (
    InpxGroupState,
    InpxGroupAction,
    Option<ScanCounter>,
) {
    let fail = (InpxGroupState::Done, InpxGroupAction::Finish { ok: false }, None);
    match (state, event) {
        (InpxGroupState::Start, InpxGroupEvent::Begin { count }) => if count > 0 {
            (
                InpxGroupState::LookingUp { index: 0, count, pending: 0 },
                InpxGroupAction::FindBook { index: 0 },
                None,
            )
        } else {
            (InpxGroupState::Done, InpxGroupAction::Finish { ok: true }, None)
        },
        (InpxGroupState::LookingUp { index, count, pending }, InpxGroupEvent::BookFound { existing }) =>
            match existing {
            Some(id) => (
                InpxGroupState::Confirming { index, count, pending },
                InpxGroupAction::ConfirmBook { book_id: id },
                None,
            ),
            None => (
                InpxGroupState::Holding { index, count, pending },
                InpxGroupAction::Hold { index },
                None,
            ),
        },
        (InpxGroupState::Confirming { index, count, pending }, InpxGroupEvent::BookConfirmed) => (
            group_next_record(index, count, pending).0,
            group_next_record(index, count, pending).1,
            Some(ScanCounter::BooksSkipped),
        ),
        (InpxGroupState::Holding { index, count, pending }, InpxGroupEvent::Held) => if pending
            < usize::MAX {
            (
                group_next_record(index, count, (pending + 1) as usize).0,
                group_next_record(index, count, (pending + 1) as usize).1,
                None,
            )
        } else {
            fail
        },
        (InpxGroupState::Enriching { pending }, InpxGroupEvent::Enriched) => (
            InpxGroupState::OpeningCatalog { pending },
            InpxGroupAction::EnsureCatalog,
            None,
        ),
        (InpxGroupState::OpeningCatalog { pending }, InpxGroupEvent::CatalogReady) => if pending > 0 {
            (
                InpxGroupState::Inserting { index: 0, pending },
                InpxGroupAction::InsertBook { index: 0 },
                None,
            )
        } else {
            (InpxGroupState::Done, InpxGroupAction::Finish { ok: true }, None)
        },
        (InpxGroupState::Inserting { index, pending }, InpxGroupEvent::BookInserted { ok }) => (
            group_next_insert(index, pending).0,
            group_next_insert(index, pending).1,
            Some(
                if ok {
                    ScanCounter::BooksAdded
                } else {
                    ScanCounter::Errors
                },
            ),
        ),
        _ => fail,
    }
}

fn group_next_record_exec(index: usize, count: usize, pending: usize) -> (r: (
    InpxGroupState,
    InpxGroupAction,
))
    ensures
        r == group_next_record(index, count, pending),
{
    if count > 0 && index < count - 1 {
        (
            InpxGroupState::LookingUp { index: index + 1, count, pending },
            InpxGroupAction::FindBook { index: index + 1 },
        )
    } else if pending == 0 {
        (InpxGroupState::Done, InpxGroupAction::Finish { ok: true })
    } else {
        (InpxGroupState::Enriching { pending }, InpxGroupAction::Enrich)
    }
}

fn group_next_insert_exec(index: usize, pending: usize) -> (r: (InpxGroupState, InpxGroupAction))
    ensures
        r == group_next_insert(index, pending),
{
    if pending > 0 && index < pending - 1 {
        (
            InpxGroupState::Inserting { index: index + 1, pending },
            InpxGroupAction::InsertBook { index: index + 1 },
        )
    } else {
        (InpxGroupState::Done, InpxGroupAction::Finish { ok: true })
    }
}

/// One step of handling the records of one archive of an INPX index.
pub fn inpx_group_step(state: InpxGroupState, event: InpxGroupEvent) -> (r: (
    InpxGroupState,
    InpxGroupAction,
    Option<ScanCounter>,
))
    ensures
        r == inpx_group_step_spec(state, event),
{
    let fail = (InpxGroupState::Done, InpxGroupAction::Finish { ok: false }, None);
    match (state, event) {
        (InpxGroupState::Start, InpxGroupEvent::Begin { count }) => if count > 0 {
            (
                InpxGroupState::LookingUp { index: 0, count, pending: 0 },
                InpxGroupAction::FindBook { index: 0 },
                None,
            )
        } else {
            (InpxGroupState::Done, InpxGroupAction::Finish { ok: true }, None)
        },
        (InpxGroupState::LookingUp { index, count, pending }, InpxGroupEvent::BookFound { existing }) =>
            match existing {
            Some(id) => (
                InpxGroupState::Confirming { index, count, pending },
                InpxGroupAction::ConfirmBook { book_id: id },
                None,
            ),
            None => (
                InpxGroupState::Holding { index, count, pending },
                InpxGroupAction::Hold { index },
                None,
            ),
        },
        (InpxGroupState::Confirming { index, count, pending }, InpxGroupEvent::BookConfirmed) => {
            let (s, a) = group_next_record_exec(index, count, pending);
            (s, a, Some(ScanCounter::BooksSkipped))
        },
        (InpxGroupState::Holding { index, count, pending }, InpxGroupEvent::Held) => if pending
            < usize::MAX {
            let (s, a) = group_next_record_exec(index, count, pending + 1);
            (s, a, None)
        } else {
            fail
        },
        (InpxGroupState::Enriching { pending }, InpxGroupEvent::Enriched) => (
            InpxGroupState::OpeningCatalog { pending },
            InpxGroupAction::EnsureCatalog,
            None,
        ),
        (InpxGroupState::OpeningCatalog { pending }, InpxGroupEvent::CatalogReady) => if pending > 0 {
            (
                InpxGroupState::Inserting { index: 0, pending },
                InpxGroupAction::InsertBook { index: 0 },
                None,
            )
        } else {
            (InpxGroupState::Done, InpxGroupAction::Finish { ok: true }, None)
        },
        (InpxGroupState::Inserting { index, pending }, InpxGroupEvent::BookInserted { ok }) => {
            let (s, a) = group_next_insert_exec(index, pending);
            let c = if ok {
                ScanCounter::BooksAdded
            } else {
                ScanCounter::Errors
            };
            (s, a, Some(c))
        },
        _ => fail,
    }
}

/// Records looked at so far and books held or inserted: during the look-up
/// phase, the records before `index` were each either skipped or held; during
/// insertion, the held books before `index` were each added or failed.
pub open spec fn group_progress(s: InpxGroupState) -> (int, int) {
    match s {
        InpxGroupState::LookingUp { index, pending, .. } => (index as int, pending as int),
        InpxGroupState::Confirming { index, pending, .. } => (index as int, pending as int),
        InpxGroupState::Holding { index, pending, .. } => (index as int, pending as int),
        _ => (-1, -1),
    }
}

/// The record a state of the look-up phase is at, and the number of records.
pub open spec fn group_record_of(s: InpxGroupState) -> Option<(usize, usize)> {
    match s {
        InpxGroupState::LookingUp { index, count, .. } => Some((index, count)),
        InpxGroupState::Confirming { index, count, .. } => Some((index, count)),
        InpxGroupState::Holding { index, count, .. } => Some((index, count)),
        _ => None,
    }
}

/// Each record of an INPX group is either confirmed and counted as skipped,
/// or set aside for insertion, never both: a look-up step that moves to the
/// next record has counted the record it left as skipped exactly when it did
/// not set it aside. Set-aside books are inserted one by one, each counted as
/// added or as an error.
pub proof fn lemma_inpx_records_skipped_or_held(s: InpxGroupState, e: InpxGroupEvent)
    requires
        group_record_of(s) matches Some((index, count)) && index < count,
    ensures
        ({
            let (n, a, c) = inpx_group_step_spec(s, e);
            let (i, p) = group_progress(s);
            &&& group_progress(n).0 == i + 1 ==> (group_progress(n).1 == p + 1 && c is None && s is Holding)
                || (group_progress(n).1 == p && c == Some(ScanCounter::BooksSkipped) && s is Confirming)
            &&& group_progress(n).0 >= 0 ==> group_progress(n).0 == i || group_progress(n).0 == i + 1
            &&& c is Some ==> c == Some(ScanCounter::BooksSkipped)
        }),
{
}

/// A group's insertion phase counts each set-aside book once, in order.
pub proof fn lemma_inpx_inserts_counted_once(index: usize, pending: usize, ok: bool)
    requires
        index < pending,
    ensures
        ({
            let (n, a, c) = inpx_group_step_spec(
                InpxGroupState::Inserting { index, pending },
                InpxGroupEvent::BookInserted { ok },
            );
            &&& c == Some(if ok { ScanCounter::BooksAdded } else { ScanCounter::Errors })
            &&& index + 1 < pending ==> n == InpxGroupState::Inserting { index: (index + 1) as usize, pending }
            &&& index + 1 == pending ==> n == InpxGroupState::Done && a == InpxGroupAction::Finish { ok: true }
        }),
{
}

// ---------------------------------------------------------------------------
// Single book files
// ---------------------------------------------------------------------------

/// Where the scan of a single book file stands.
#[derive(Debug, Clone, Copy, PartialEq, Eq, Structural)]
pub enum FileScanState {
    Start,
    LookingUp,
    Confirming,
    Parsing,
    OpeningCatalog,
    Inserting,
    Done,
}

#[derive(Debug, Clone, Copy, PartialEq, Eq, Structural)]
pub enum FileScanEvent {
    Begin,
    BookFound { existing: Option<i64> },
    BookConfirmed,
    Parsed { ok: bool },
    CatalogReady,
    BookInserted,
    Failed,
}

#[derive(Debug, Clone, Copy, PartialEq, Eq, Structural)]
pub enum FileScanAction {
    FindBook,
    ConfirmBook { book_id: i64 },
    ParseFile,
    EnsureCatalog,
    InsertBook,
    /// Done; the counter to increment.
    Finish { counter: ScanCounter },
}

/// One step of scanning a book file: a known book is confirmed and skipped;
/// otherwise the file is parsed, its directory recorded in the catalogue and
/// the book inserted. A file that cannot be parsed, or a failed step, counts
/// as an error.
pub open spec fn file_scan_step_spec(state: FileScanState, event: FileScanEvent) -> (
    FileScanState,
    FileScanAction,
) {
    let fail = (FileScanState::Done, FileScanAction::Finish { counter: ScanCounter::Errors });
    match (state, event) {
        (FileScanState::Start, FileScanEvent::Begin) => (FileScanState::LookingUp, FileScanAction::FindBook),
        (FileScanState::LookingUp, FileScanEvent::BookFound { existing }) => match existing {
            Some(id) => (FileScanState::Confirming, FileScanAction::ConfirmBook { book_id: id }),
            None => (FileScanState::Parsing, FileScanAction::ParseFile),
        },
        (FileScanState::Confirming, FileScanEvent::BookConfirmed) => (
            FileScanState::Done,
            FileScanAction::Finish { counter: ScanCounter::BooksSkipped },
        ),
        (FileScanState::Parsing, FileScanEvent::Parsed { ok }) => if ok {
            (FileScanState::OpeningCatalog, FileScanAction::EnsureCatalog)
        } else {
            fail
        },
        (FileScanState::OpeningCatalog, FileScanEvent::CatalogReady) => (
            FileScanState::Inserting,
            FileScanAction::InsertBook,
        ),
        (FileScanState::Inserting, FileScanEvent::BookInserted) => (
            FileScanState::Done,
            FileScanAction::Finish { counter: ScanCounter::BooksAdded },
        ),
        _ => fail,
    }
}

/// One step of scanning a book file.
pub fn file_scan_step(state: FileScanState, event: FileScanEvent) -> (r: (FileScanState, FileScanAction))
    ensures
        r == file_scan_step_spec(state, event),
{
    let fail = (FileScanState::Done, FileScanAction::Finish { counter: ScanCounter::Errors });
    match (state, event) {
        (FileScanState::Start, FileScanEvent::Begin) => (FileScanState::LookingUp, FileScanAction::FindBook),
        (FileScanState::LookingUp, FileScanEvent::BookFound { existing }) => match existing {
            Some(id) => (FileScanState::Confirming, FileScanAction::ConfirmBook { book_id: id }),
            None => (FileScanState::Parsing, FileScanAction::ParseFile),
        },
        (FileScanState::Confirming, FileScanEvent::BookConfirmed) => (
            FileScanState::Done,
            FileScanAction::Finish { counter: ScanCounter::BooksSkipped },
        ),
        (FileScanState::Parsing, FileScanEvent::Parsed { ok }) => if ok {
            (FileScanState::OpeningCatalog, FileScanAction::EnsureCatalog)
        } else {
            fail
        },
        (FileScanState::OpeningCatalog, FileScanEvent::CatalogReady) => (
            FileScanState::Inserting,
            FileScanAction::InsertBook,
        ),
        (FileScanState::Inserting, FileScanEvent::BookInserted) => (
            FileScanState::Done,
            FileScanAction::Finish { counter: ScanCounter::BooksAdded },
        ),
        _ => fail,
    }
}

// ---------------------------------------------------------------------------
// INPX indexes
// ---------------------------------------------------------------------------

/// Where the scan of an INPX index stands.
#[derive(Debug, Clone, Copy, PartialEq, Eq, Structural)]
pub enum InpxScanState {
    Start,
    CheckingCatalog,
    /// Confirming the books of the index's directory, the index being unchanged.
    ConfirmingArchive,
    OpeningCatalog,
    /// Reading and grouping the index's records by archive.
    Parsing,
    /// Handling each group (`inpx_group_step`).
    ProcessingGroups,
    Done,
}

#[derive(Debug, Clone, Copy, PartialEq, Eq, Structural)]
pub enum InpxScanEvent {
    Begin,
    CatalogChecked { unchanged: bool },
    ArchiveConfirmed { updated: u64 },
    CatalogReady,
    /// The number of archive groups of the index (`group_inpx_records`).
    Parsed { groups: usize },
    GroupsDone,
    Failed,
}

#[derive(Debug, Clone, Copy, PartialEq, Eq, Structural)]
pub enum InpxScanAction {
    CheckCatalog,
    ConfirmArchive,
    EnsureCatalog,
    ParseIndex,
    ProcessGroups,
    Finish { outcome: ArchiveOutcome },
}

/// One step of scanning an INPX index: an unchanged index whose books were
/// confirmed is skipped; otherwise it is recorded in the catalogue, parsed,
/// and its groups handled; the index then counts as scanned, also when it
/// names no book.
pub open spec fn inpx_scan_step_spec(state: InpxScanState, event: InpxScanEvent) -> (
    InpxScanState,
    InpxScanAction,
) {
    let fail = (InpxScanState::Done, InpxScanAction::Finish { outcome: ArchiveOutcome::Failed });
    match (state, event) {
        (InpxScanState::Start, InpxScanEvent::Begin) => (InpxScanState::CheckingCatalog, InpxScanAction::CheckCatalog),
        (InpxScanState::CheckingCatalog, InpxScanEvent::CatalogChecked { unchanged }) => if unchanged {
            (InpxScanState::ConfirmingArchive, InpxScanAction::ConfirmArchive)
        } else {
            (InpxScanState::OpeningCatalog, InpxScanAction::EnsureCatalog)
        },
        (InpxScanState::ConfirmingArchive, InpxScanEvent::ArchiveConfirmed { updated }) => if updated
            > 0 {
            (InpxScanState::Done, InpxScanAction::Finish { outcome: ArchiveOutcome::Skipped })
        } else {
            (InpxScanState::OpeningCatalog, InpxScanAction::EnsureCatalog)
        },
        (InpxScanState::OpeningCatalog, InpxScanEvent::CatalogReady) => (
            InpxScanState::Parsing,
            InpxScanAction::ParseIndex,
        ),
        (InpxScanState::Parsing, InpxScanEvent::Parsed { groups }) => if groups > 0 {
            (InpxScanState::ProcessingGroups, InpxScanAction::ProcessGroups)
        } else {
            (InpxScanState::Done, InpxScanAction::Finish { outcome: ArchiveOutcome::Scanned })
        },
        (InpxScanState::ProcessingGroups, InpxScanEvent::GroupsDone) => (
            InpxScanState::Done,
            InpxScanAction::Finish { outcome: ArchiveOutcome::Scanned },
        ),
        _ => fail,
    }
}

/// One step of scanning an INPX index.
pub fn inpx_scan_step(state: InpxScanState, event: InpxScanEvent) -> (r: (InpxScanState, InpxScanAction))
    ensures
        r == inpx_scan_step_spec(state, event),
{
    let fail = (InpxScanState::Done, InpxScanAction::Finish { outcome: ArchiveOutcome::Failed });
    match (state, event) {
        (InpxScanState::Start, InpxScanEvent::Begin) => (InpxScanState::CheckingCatalog, InpxScanAction::CheckCatalog),
        (InpxScanState::CheckingCatalog, InpxScanEvent::CatalogChecked { unchanged }) => if unchanged {
            (InpxScanState::ConfirmingArchive, InpxScanAction::ConfirmArchive)
        } else {
            (InpxScanState::OpeningCatalog, InpxScanAction::EnsureCatalog)
        },
        (InpxScanState::ConfirmingArchive, InpxScanEvent::ArchiveConfirmed { updated }) => if updated
            > 0 {
            (InpxScanState::Done, InpxScanAction::Finish { outcome: ArchiveOutcome::Skipped })
        } else {
            (InpxScanState::OpeningCatalog, InpxScanAction::EnsureCatalog)
        },
        (InpxScanState::OpeningCatalog, InpxScanEvent::CatalogReady) => (
            InpxScanState::Parsing,
            InpxScanAction::ParseIndex,
        ),
        (InpxScanState::Parsing, InpxScanEvent::Parsed { groups }) => if groups > 0 {
            (InpxScanState::ProcessingGroups, InpxScanAction::ProcessGroups)
        } else {
            (InpxScanState::Done, InpxScanAction::Finish { outcome: ArchiveOutcome::Scanned })
        },
        (InpxScanState::ProcessingGroups, InpxScanEvent::GroupsDone) => (
            InpxScanState::Done,
            InpxScanAction::Finish { outcome: ArchiveOutcome::Scanned },
        ),
        _ => fail,
    }
}

// ---------------------------------------------------------------------------
// A whole scan
// ---------------------------------------------------------------------------

/// Where a library scan stands.
#[derive(Debug, Clone, Copy, PartialEq, Eq, Structural)]
pub enum ScanRunState {
    Start,
    /// Marking every available book as unverified.
    Marking,
    /// Walking the library for books, archives and indexes.
    Walking,
    /// Handling each entry found.
    Processing,
    /// Marking the books not found as deleted.
    DeletingLogically,
    /// Collecting the ids of the books not found.
    Collecting,
    /// Removing the books not found.
    DeletingPhysically,
    /// Removing the cover files of the removed books.
    RemovingCovers,
    /// Removing catalogues left empty.
    CleaningCatalogs,
    /// Updating the stored counters.
    Counting,
    Done,
}

#[derive(Debug, Clone, Copy, PartialEq, Eq, Structural)]
pub enum ScanRunEvent {
    Begin,
    Marked,
    Walked,
    Processed,
    /// How many books were removed or marked deleted.
    Deleted { count: u64 },
    Collected,
    CoversRemoved,
    CatalogsCleaned,
    Counted,
    Failed,
}

#[derive(Debug, Clone, Copy, PartialEq, Eq, Structural)]
pub enum ScanRunAction {
    MarkUnverified,
    Walk,
    ProcessEntries,
    DeleteLogically,
    CollectUnavailable,
    DeletePhysically,
    RemoveCovers,
    DeleteEmptyCatalogs,
    UpdateCounters,
    /// Done; `ok` is false when a step failed.
    Finish { ok: bool },
}

/// One step of a library scan: books are marked unverified, the library
/// walked and each entry handled; the books not found are then marked deleted
/// (`delete_logical`) or removed with their covers; empty catalogues are
/// removed and the counters updated. The third result is the number of
/// deleted books to record, when this step learnt it. A failed step ends the
/// scan with an error.
pub open spec fn scan_run_step_spec(delete_logical: bool, state: ScanRunState, event: ScanRunEvent) -> (
    ScanRunState,
    ScanRunAction,
    Option<u64>,
) {
    let fail = (ScanRunState::Done, ScanRunAction::Finish { ok: false }, None);
    match (state, event) {
        (ScanRunState::Start, ScanRunEvent::Begin) => (ScanRunState::Marking, ScanRunAction::MarkUnverified, None),
        (ScanRunState::Marking, ScanRunEvent::Marked) => (ScanRunState::Walking, ScanRunAction::Walk, None),
        (ScanRunState::Walking, ScanRunEvent::Walked) => (
            ScanRunState::Processing,
            ScanRunAction::ProcessEntries,
            None,
        ),
        (ScanRunState::Processing, ScanRunEvent::Processed) => if delete_logical {
            (ScanRunState::DeletingLogically, ScanRunAction::DeleteLogically, None)
        } else {
            (ScanRunState::Collecting, ScanRunAction::CollectUnavailable, None)
        },
        (ScanRunState::DeletingLogically, ScanRunEvent::Deleted { count }) => (
            ScanRunState::CleaningCatalogs,
            ScanRunAction::DeleteEmptyCatalogs,
            Some(count),
        ),
        (ScanRunState::Collecting, ScanRunEvent::Collected) => (
            ScanRunState::DeletingPhysically,
            ScanRunAction::DeletePhysically,
            None,
        ),
        (ScanRunState::DeletingPhysically, ScanRunEvent::Deleted { count }) => (
            ScanRunState::RemovingCovers,
            ScanRunAction::RemoveCovers,
            Some(count),
        ),
        (ScanRunState::RemovingCovers, ScanRunEvent::CoversRemoved) => (
            ScanRunState::CleaningCatalogs,
            ScanRunAction::DeleteEmptyCatalogs,
            None,
        ),
        (ScanRunState::CleaningCatalogs, ScanRunEvent::CatalogsCleaned) => (
            ScanRunState::Counting,
            ScanRunAction::UpdateCounters,
            None,
        ),
        (ScanRunState::Counting, ScanRunEvent::Counted) => (
            ScanRunState::Done,
            ScanRunAction::Finish { ok: true },
            None,
        ),
        _ => fail,
    }
}

/// One step of a library scan.
pub fn scan_run_step(delete_logical: bool, state: ScanRunState, event: ScanRunEvent) -> (r: (
    ScanRunState,
    ScanRunAction,
    Option<u64>,
))
    ensures
        r == scan_run_step_spec(delete_logical, state, event),
{
    let fail = (ScanRunState::Done, ScanRunAction::Finish { ok: false }, None);
    match (state, event) {
        (ScanRunState::Start, ScanRunEvent::Begin) => (ScanRunState::Marking, ScanRunAction::MarkUnverified, None),
        (ScanRunState::Marking, ScanRunEvent::Marked) => (ScanRunState::Walking, ScanRunAction::Walk, None),
        (ScanRunState::Walking, ScanRunEvent::Walked) => (
            ScanRunState::Processing,
            ScanRunAction::ProcessEntries,
            None,
        ),
        (ScanRunState::Processing, ScanRunEvent::Processed) => if delete_logical {
            (ScanRunState::DeletingLogically, ScanRunAction::DeleteLogically, None)
        } else {
            (ScanRunState::Collecting, ScanRunAction::CollectUnavailable, None)
        },
        (ScanRunState::DeletingLogically, ScanRunEvent::Deleted { count }) => (
            ScanRunState::CleaningCatalogs,
            ScanRunAction::DeleteEmptyCatalogs,
            Some(count),
        ),
        (ScanRunState::Collecting, ScanRunEvent::Collected) => (
            ScanRunState::DeletingPhysically,
            ScanRunAction::DeletePhysically,
            None,
        ),
        (ScanRunState::DeletingPhysically, ScanRunEvent::Deleted { count }) => (
            ScanRunState::RemovingCovers,
            ScanRunAction::RemoveCovers,
            Some(count),
        ),
        (ScanRunState::RemovingCovers, ScanRunEvent::CoversRemoved) => (
            ScanRunState::CleaningCatalogs,
            ScanRunAction::DeleteEmptyCatalogs,
            None,
        ),
        (ScanRunState::CleaningCatalogs, ScanRunEvent::CatalogsCleaned) => (
            ScanRunState::Counting,
            ScanRunAction::UpdateCounters,
            None,
        ),
        (ScanRunState::Counting, ScanRunEvent::Counted) => (
            ScanRunState::Done,
            ScanRunAction::Finish { ok: true },
            None,
        ),
        _ => fail,
    }
}

} // verus!
