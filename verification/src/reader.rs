//! The store reader: from the rows of one store to permission entries, and
//! from the reads of both stores to one listing.

use vstd::prelude::*;
use vstd::string::*;
use vstd::seq_lib::*;
use crate::catalog::{display_name_of, service_display_name};
use crate::entry::{models, EntryModel, TccEntry};
use crate::error::{message_of, ErrorModel, TccError};
use crate::query::{filter_entries, is_listing_of, opt_text, selection, sort_entries};
use crate::render::{format_timestamp, is_calendar_text, is_rendering_of};
use crate::store::{
    failure_text, open_read_only, path_exists, prepare, read_rows, RawRow,
};
use crate::text::{decimal, has_prefix, texts};

verus! {

/// `e` is the entry that `row` gives: the row's service, client and status,
/// the display name of the service, the origin given, and the row's time
/// rendered in the machine's zone, which is `N/A` when the time is zero.
pub open spec fn entry_of_row(row: RawRow, is_system: bool, e: EntryModel) -> bool {
    &&& e.service_raw == row.service@
    &&& e.service_display == display_name_of(row.service@)
    &&& e.client == row.client@
    &&& e.auth_value == row.auth_value
    &&& e.is_system == is_system
    &&& is_rendering_of(row.modified as int, e.last_modified)
    &&& row.modified == 0 ==> e.last_modified == "N/A"@
    &&& row.modified != 0 ==> e.last_modified == decimal(row.modified as int) || is_calendar_text(
        e.last_modified,
    )
}

/// The entry carries the name under which its service is shown, and the
/// origin given.
pub open spec fn well_read(e: EntryModel, is_system: bool) -> bool {
    e.service_display == display_name_of(e.service_raw) && e.is_system == is_system
}

/// Builds the entry for one row of a store.
pub fn entry_from_row(row: RawRow, is_system: bool) -> (e: TccEntry)
    ensures
        entry_of_row(row, is_system, e@),
{
    let service_display = service_display_name(row.service.as_str());
    let last_modified = format_timestamp(row.modified);
    TccEntry {
        service_raw: row.service,
        service_display,
        client: row.client,
        auth_value: row.auth_value,
        last_modified,
        is_system,
    }
}

/// The rows of a scan that could be read, in their order.
pub open spec fn readable_rows(rows: Seq<Result<RawRow, rusqlite::Error>>) -> Seq<RawRow>
    decreases rows.len(),
{
    if rows.len() == 0 {
        Seq::empty()
    } else {
        match rows.last() {
            Ok(row) => readable_rows(rows.drop_last()).push(row),
            Err(_) => readable_rows(rows.drop_last()),
        }
    }
}

/// The start of the warning about a row of the store at `path` that was
/// skipped; the cause follows it.
pub open spec fn skipped_row_prefix(path: Seq<char>) -> Seq<char> {
    "Warning: skipping malformed row in "@ + path + ": "@
}

/// `after` is `before` with texts added at its end, each starting with
/// `prefix`.
pub open spec fn grows_with(before: Seq<Seq<char>>, after: Seq<Seq<char>>, prefix: Seq<char>) -> bool {
    &&& before.len() <= after.len()
    &&& after.subrange(0, before.len() as int) == before
    &&& forall|k: int| before.len() <= k < after.len() ==> has_prefix(#[trigger] after[k], prefix)
}

/// `after` is `before` with `n` texts added at its end, each starting with
/// `prefix`.
pub open spec fn extended_by(
    before: Seq<Seq<char>>,
    after: Seq<Seq<char>>,
    n: int,
    prefix: Seq<char>,
) -> bool {
    after.len() == before.len() + n && grows_with(before, after, prefix)
}

/// Turns the rows of a scan into entries. A row that could not be read is
/// skipped, and a warning that names the store and the cause is added to
/// `warnings`; the other rows give their entries, in their order.
pub fn collect_entries(
    rows: Vec<Result<RawRow, rusqlite::Error>>,
    path: &str,
    is_system: bool,
    warnings: &mut Vec<String>,
) -> (r: Vec<TccEntry>)
    ensures
        r@.len() == readable_rows(rows@).len(),
        forall|i: int|
            0 <= i < r@.len() ==> entry_of_row(readable_rows(rows@)[i], is_system, #[trigger] r@[i]@),
        extended_by(
            texts(old(warnings)@),
            texts(final(warnings)@),
            rows@.len() - readable_rows(rows@).len(),
            skipped_row_prefix(path@),
        ),
{
    let mut entries: Vec<TccEntry> = Vec::new();
    let ghost before = texts(warnings@);
    proof {
        assert(texts(warnings@).subrange(0, before.len() as int) =~= before);
        assert(rows@.take(0) =~= Seq::empty());
    }
    for row in it: rows
        invariant
            it.seq() == rows@,
            entries@.len() == readable_rows(rows@.take(it.index() as int)).len(),
            entries@.len() <= it.index(),
            forall|i: int|
                0 <= i < entries@.len() ==> entry_of_row(
                    readable_rows(rows@.take(it.index() as int))[i],
                    is_system,
                    #[trigger] entries@[i]@,
                ),
            extended_by(
                before,
                texts(warnings@),
                it.index() - readable_rows(rows@.take(it.index() as int)).len(),
                skipped_row_prefix(path@),
            ),
    {
        let ghost i = it.index() as int;
        let ghost seen = readable_rows(rows@.take(i));
        let ghost logged = texts(warnings@);
        proof {
            assert(rows@.take(i + 1).drop_last() =~= rows@.take(i));
            assert(rows@.take(i + 1).last() == row);
        }
        match row {
            Ok(raw) => {
                let entry = entry_from_row(raw, is_system);
                entries.push(entry);
            },
            Err(e) => {
                let mut warning = String::from_str("Warning: skipping malformed row in ");
                warning.append(path);
                warning.append(": ");
                let ghost start = warning@;
                warning.append(failure_text(&e).as_str());
                proof {
                    assert(warning@.subrange(0, start.len() as int) =~= start);
                }
                warnings.push(warning);
                proof {
                    assert(texts(warnings@) =~= logged.push(warning@));
                    assert(logged.subrange(0, before.len() as int) == before);
                    assert(texts(warnings@).subrange(0, before.len() as int) =~= logged.subrange(
                        0,
                        before.len() as int,
                    ));
                }
            },
        }
    }
    proof {
        assert(rows@.take(rows@.len() as int) =~= rows@);
    }
    entries
}

/// A failure of reading the store at `path`: it could not be opened, or its
/// scan failed; either way the failure names the store.
pub open spec fn is_read_failure(path: Seq<char>, e: ErrorModel) -> bool {
    match e {
        ErrorModel::DbOpen { path: p, source } => p == path,
        ErrorModel::QueryFailed(m) => has_prefix(m, "Query failed on "@ + path + ": "@)
            || has_prefix(m, "Query error on "@ + path + ": "@),
        _ => false,
    }
}

/// The two projections of a scan.
#[derive(Clone, Copy, Debug, PartialEq, Eq, Structural)]
pub enum Projection {
    /// Service, client, status, and the time of the last change, zero where
    /// the row has none.
    Full,
    /// Service, client and status, with zero for the time: for stores whose
    /// table has no column for it.
    Reduced,
}

/// The text of the full projection.
pub open spec fn full_scan() -> Seq<char> {
    "SELECT service, client, auth_value, COALESCE(last_modified, 0) as modified FROM access"@
}

/// The text of the reduced projection.
pub open spec fn reduced_scan() -> Seq<char> {
    "SELECT service, client, auth_value, 0 as modified FROM access"@
}

/// The text of a projection.
pub open spec fn scan_of(projection: Projection) -> Seq<char> {
    match projection {
        Projection::Full => full_scan(),
        Projection::Reduced => reduced_scan(),
    }
}

/// The projection to try after one that the store refused: the reduced one
/// after the full one, and none after that.
pub open spec fn fallback(projection: Projection) -> Option<Projection> {
    match projection {
        Projection::Full => Some(Projection::Reduced),
        Projection::Reduced => None,
    }
}

/// The statement of the full projection.
pub fn full_projection() -> (r: &'static str)
    ensures
        r@ == full_scan(),
{
    "SELECT service, client, auth_value, COALESCE(last_modified, 0) as modified FROM access"
}

/// The statement of the reduced projection.
pub fn reduced_projection() -> (r: &'static str)
    ensures
        r@ == reduced_scan(),
{
    "SELECT service, client, auth_value, 0 as modified FROM access"
}

/// The statement of a projection.
pub fn projection_text(projection: Projection) -> (r: &'static str)
    ensures
        r@ == scan_of(projection),
{
    match projection {
        Projection::Full => full_projection(),
        Projection::Reduced => reduced_projection(),
    }
}

/// The projection to try after one that the store refused.
pub fn fallback_of(projection: Projection) -> (r: Option<Projection>)
    ensures
        r == fallback(projection),
{
    match projection {
        Projection::Full => Some(Projection::Reduced),
        Projection::Reduced => None,
    }
}

/// What the calls into one store gave.
#[derive(Debug)]
pub enum Scan {
    /// There is no file at the path.
    Missing,
    /// The store could not be opened; the cause.
    OpenFailed(String),
    /// No projection could be prepared; the cause of the last refusal.
    PrepareFailed(String),
    /// The scan could not be run; the cause.
    QueryFailed(String),
    /// The rows of the scan, each read or failed.
    Rows(Vec<Result<RawRow, rusqlite::Error>>),
}

/// The text of a scan that failed: what failed, the store, and the cause.
pub open spec fn scan_failure(what: Seq<char>, path: Seq<char>, cause: Seq<char>) -> ErrorModel {
    ErrorModel::QueryFailed(what + path + ": "@ + cause)
}

/// What a read reports for what the calls into the store gave.
///
/// A store that is missing has no entries, and that is no failure. A store
/// that cannot be opened fails the read with the path and the cause; a scan
/// that cannot be prepared or run fails it with a text that names the store
/// and the cause. In all these the log stays as it was. Rows give one entry
/// for each row that could be read, in their order, and one warning for each
/// that could not.
pub open spec fn read_concluded(
    path: Seq<char>,
    is_system: bool,
    scan: Scan,
    r: Result<Vec<TccEntry>, TccError>,
    before: Seq<Seq<char>>,
    after: Seq<Seq<char>>,
) -> bool {
    match scan {
        Scan::Missing => r matches Ok(entries) && entries@.len() == 0 && after == before,
        Scan::OpenFailed(cause) => r matches Err(e) && e@ == (ErrorModel::DbOpen {
            path,
            source: cause@,
        }) && after == before,
        Scan::PrepareFailed(cause) => r matches Err(e) && e@ == scan_failure(
            "Query failed on "@,
            path,
            cause@,
        ) && after == before,
        Scan::QueryFailed(cause) => r matches Err(e) && e@ == scan_failure(
            "Query error on "@,
            path,
            cause@,
        ) && after == before,
        Scan::Rows(rows) => r matches Ok(entries) && {
            &&& entries@.len() == readable_rows(rows@).len()
            &&& forall|i: int|
                0 <= i < entries@.len() ==> entry_of_row(
                    readable_rows(rows@)[i],
                    is_system,
                    #[trigger] entries@[i]@,
                )
            &&& extended_by(
                before,
                after,
                rows@.len() - readable_rows(rows@).len(),
                skipped_row_prefix(path),
            )
        },
    }
}

/// A read and the log after it are what some scan of the store gives.
pub open spec fn is_read_outcome(
    path: Seq<char>,
    is_system: bool,
    r: Result<Vec<TccEntry>, TccError>,
    before: Seq<Seq<char>>,
    after: Seq<Seq<char>>,
) -> bool {
    exists|scan: Scan| #[trigger] read_concluded(path, is_system, scan, r, before, after)
}

/// The failure of a scan: what failed, the store, and the cause.
fn scan_error(what: &str, path: &str, cause: &str) -> (e: TccError)
    ensures
        e@ == scan_failure(what@, path@, cause@),
{
    let mut message = String::from_str(what);
    message.append(path);
    message.append(": ");
    message.append(cause);
    TccError::QueryFailed(message)
}

/// Concludes a read from what the calls into the store gave.
pub fn conclude_read(path: &str, is_system: bool, scan: Scan, warnings: &mut Vec<String>) -> (r:
    Result<Vec<TccEntry>, TccError>)
    ensures
        read_concluded(
            path@,
            is_system,
            scan,
            r,
            texts(old(warnings)@),
            texts(final(warnings)@),
        ),
{
    match scan {
        Scan::Missing => Ok(Vec::new()),
        Scan::OpenFailed(cause) => Err(
            TccError::DbOpen { path: String::from_str(path), source: cause },
        ),
        Scan::PrepareFailed(cause) => Err(scan_error("Query failed on ", path, cause.as_str())),
        Scan::QueryFailed(cause) => Err(scan_error("Query error on ", path, cause.as_str())),
        Scan::Rows(rows) => {
            let entries = collect_entries(rows, path, is_system, warnings);
            Ok(entries)
        },
    }
}

/// What every read gives, whatever the store holds: each entry carries the
/// display name of its service and the origin given, a failure names the
/// store, and the log has only grown, by warnings about skipped rows.
pub proof fn lemma_read_concluded(
    path: Seq<char>,
    is_system: bool,
    scan: Scan,
    r: Result<Vec<TccEntry>, TccError>,
    before: Seq<Seq<char>>,
    after: Seq<Seq<char>>,
)
    requires
        read_concluded(path, is_system, scan, r, before, after),
    ensures
        match r {
            Ok(entries) => forall|i: int|
                0 <= i < entries@.len() ==> well_read(#[trigger] entries@[i]@, is_system),
            Err(e) => is_read_failure(path, e@),
        },
        grows_with(before, after, skipped_row_prefix(path)),
{
    assert(before.subrange(0, before.len() as int) =~= before);
    match scan {
        Scan::PrepareFailed(cause) => {
            let start = "Query failed on "@ + path + ": "@;
            assert((start + cause@).subrange(0, start.len() as int) =~= start);
        },
        Scan::QueryFailed(cause) => {
            let start = "Query error on "@ + path + ": "@;
            assert((start + cause@).subrange(0, start.len() as int) =~= start);
        },
        Scan::Rows(rows) => {
            if let Ok(entries) = r {
                assert forall|i: int| 0 <= i < entries@.len() implies well_read(
                    #[trigger] entries@[i]@,
                    is_system,
                ) by {
                    assert(entry_of_row(readable_rows(rows@)[i], is_system, entries@[i]@));
                }
            }
        },
        _ => {},
    }
}

/// The projections in `tried` were tried in fallback order: the full one
/// first, and each next one as the fallback of the one before it.
pub open spec fn in_fallback_order(tried: Seq<Projection>) -> bool {
    forall|i: int|
        0 <= i < tried.len() ==> Some(#[trigger] tried[i]) == (if i == 0 {
            Some(Projection::Full)
        } else {
            fallback(tried[i - 1])
        })
}

/// What the calls into one store gave, with the projections that were put
/// to it.
#[derive(Debug)]
pub struct ScanRun {
    /// What the calls gave.
    pub scan: Scan,
    /// The projections that the store refused, in the order they were put.
    pub refused: Vec<Projection>,
    /// The projection that the store took, where it took one.
    pub prepared: Option<Projection>,
}

/// The projections of a run were put in fallback order. A store that is
/// missing or cannot be opened is put none. Where the store took one, it
/// came after those refused; where it took none, all were refused, down to
/// the one without a fallback.
pub open spec fn is_scan_run(run: ScanRun) -> bool {
    match run.scan {
        Scan::Missing => run.refused@.len() == 0 && run.prepared is None,
        Scan::OpenFailed(_) => run.refused@.len() == 0 && run.prepared is None,
        Scan::PrepareFailed(_) => {
            &&& run.prepared is None
            &&& run.refused@.len() > 0
            &&& in_fallback_order(run.refused@)
            &&& fallback(run.refused@.last()) is None
        },
        Scan::QueryFailed(_) => run.prepared matches Some(p) && in_fallback_order(
            run.refused@.push(p),
        ),
        Scan::Rows(_) => run.prepared matches Some(p) && in_fallback_order(run.refused@.push(p)),
    }
}

/// The reduced projection is put to a store only after the store refused
/// the full one; and the full one is put first, before any refusal.
pub proof fn lemma_reduced_follows_full(refused: Seq<Projection>, prepared: Projection)
    requires
        in_fallback_order(refused.push(prepared)),
    ensures
        prepared == Projection::Reduced ==> refused == seq![Projection::Full],
        prepared == Projection::Full ==> refused.len() == 0,
{
    let tried = refused.push(prepared);
    let n = refused.len() as int;
    assert(tried[n] == prepared);
    if n > 0 {
        assert(tried[0] == Projection::Full);
        assert(tried[n - 1] == refused[n - 1]);
        if n > 1 {
            assert(Some(tried[1]) == fallback(tried[0]));
            assert(tried[1] == Projection::Reduced);
            assert(Some(tried[2]) == fallback(tried[1]));
        }
        assert(refused =~= seq![Projection::Full]);
    }
}

/// Makes the calls into the store at `path`: finds out whether it is there,
/// opens it read-only, prepares the full projection or, where the store
/// refuses a projection, its fallback, and runs the scan.
fn scan_store(path: &str) -> (run: ScanRun)
    ensures
        is_scan_run(run),
{
    let mut refused: Vec<Projection> = Vec::new();
    if !path_exists(path) {
        return ScanRun { scan: Scan::Missing, refused, prepared: None };
    }
    let conn = match open_read_only(path) {
        Ok(conn) => conn,
        Err(e) => {
            return ScanRun { scan: Scan::OpenFailed(failure_text(&e)), refused, prepared: None };
        },
    };
    let mut projection = Projection::Full;
    loop
        invariant
            in_fallback_order(refused@.push(projection)),
        decreases
            match projection {
                Projection::Full => 1int,
                Projection::Reduced => 0int,
            },
    {
        match prepare(&conn, projection_text(projection)) {
            Ok(mut statement) => {
                let scan = match read_rows(&mut statement) {
                    Ok(rows) => Scan::Rows(rows),
                    Err(e) => Scan::QueryFailed(failure_text(&e)),
                };
                return ScanRun { scan, refused, prepared: Some(projection) };
            },
            Err(e) => {
                let ghost before = refused@;
                refused.push(projection);
                match fallback_of(projection) {
                    Some(next) => {
                        proof {
                            let tried = refused@.push(next);
                            assert forall|i: int| 0 <= i < tried.len() implies Some(
                                #[trigger] tried[i],
                            ) == (if i == 0 {
                                Some(Projection::Full)
                            } else {
                                fallback(tried[i - 1])
                            }) by {
                                if i < tried.len() - 1 {
                                    assert(tried[i] == before.push(projection)[i]);
                                    if i > 0 {
                                        assert(tried[i - 1] == before.push(projection)[i - 1]);
                                    }
                                }
                            }
                        }
                        projection = next;
                    },
                    None => {
                        return ScanRun {
                            scan: Scan::PrepareFailed(failure_text(&e)),
                            refused,
                            prepared: None,
                        };
                    },
                }
            },
        }
    }
}

/// Reads the entries of the store at `path`.
///
/// The result is what [`conclude_read`] makes of what the calls into the
/// store gave: a store that does not exist has no entries; one that cannot
/// be opened or scanned fails the read; rows that cannot be read are skipped
/// with a warning. Whatever the store holds, each entry returned carries the
/// display name of its service and the origin given, and a failure names the
/// store.
pub fn read_db(path: &str, is_system: bool, warnings: &mut Vec<String>) -> (r: Result<
    Vec<TccEntry>,
    TccError,
>)
    ensures
        is_read_outcome(path@, is_system, r, texts(old(warnings)@), texts(final(warnings)@)),
        match r {
            Ok(entries) => forall|i: int|
                0 <= i < entries@.len() ==> well_read(#[trigger] entries@[i]@, is_system),
            Err(e) => is_read_failure(path@, e@),
        },
        grows_with(texts(old(warnings)@), texts(final(warnings)@), skipped_row_prefix(path@)),
{
    let run = scan_store(path);
    let ghost given = run.scan;
    let r = conclude_read(path, is_system, run.scan, warnings);
    proof {
        lemma_read_concluded(
            path@,
            is_system,
            given,
            r,
            texts(old(warnings)@),
            texts(warnings@),
        );
    }
    r
}

/// The entries of a read, none where it failed.
pub open spec fn entries_read(read: Result<Vec<TccEntry>, TccError>) -> Seq<EntryModel> {
    match read {
        Ok(entries) => models(entries@),
        Err(_) => Seq::empty(),
    }
}

/// The warnings that a read gives rise to: one, with the failure's text,
/// where it failed.
pub open spec fn read_warnings(read: Result<Vec<TccEntry>, TccError>) -> Seq<Seq<char>> {
    match read {
        Ok(_) => Seq::empty(),
        Err(e) => seq!["Warning: "@ + message_of(e@)],
    }
}

/// The entries of the read of the machine-wide store, none where it was not
/// read.
pub open spec fn system_entries_read(read: Option<Result<Vec<TccEntry>, TccError>>) -> Seq<
    EntryModel,
> {
    match read {
        Some(r) => entries_read(r),
        None => Seq::empty(),
    }
}

/// The warnings of the read of the machine-wide store.
pub open spec fn system_read_warnings(read: Option<Result<Vec<TccEntry>, TccError>>) -> Seq<
    Seq<char>,
> {
    match read {
        Some(r) => read_warnings(r),
        None => Seq::empty(),
    }
}

/// Takes the entries of one read into `entries`, or the warning about its
/// failure into `warnings`.
fn take_read(
    read: Result<Vec<TccEntry>, TccError>,
    entries: &mut Vec<TccEntry>,
    warnings: &mut Vec<String>,
)
    ensures
        models(final(entries)@) == models(old(entries)@) + entries_read(read),
        texts(final(warnings)@) == texts(old(warnings)@) + read_warnings(read),
{
    match read {
        Ok(mut found) => {
            let ghost added = models(found@);
            entries.append(&mut found);
            proof {
                assert(models(entries@) =~= models(old(entries)@) + added);
                assert(texts(warnings@) =~= texts(old(warnings)@) + read_warnings(read));
            }
        },
        Err(e) => {
            let mut warning = String::from_str("Warning: ");
            warning.append(e.message().as_str());
            warnings.push(warning);
            proof {
                assert(models(entries@) =~= models(old(entries)@) + entries_read(read));
                assert(texts(warnings@) =~= texts(old(warnings)@) + read_warnings(read));
            }
        },
    }
}

/// Makes one listing of the reads of the two stores.
///
/// A read that failed contributes no entries and one warning with the
/// failure's text; the other store's entries are still listed. The entries
/// of the user store come first, those of the machine-wide store after them;
/// the filters are applied, and the rest is put in listing order.
pub fn merge_reads(
    user: Result<Vec<TccEntry>, TccError>,
    system: Option<Result<Vec<TccEntry>, TccError>>,
    client_filter: Option<&str>,
    service_filter: Option<&str>,
    warnings: &mut Vec<String>,
) -> (r: Vec<TccEntry>)
    ensures
        is_listing_of(
            models(r@),
            selection(
                entries_read(user) + system_entries_read(system),
                opt_text(client_filter),
                opt_text(service_filter),
            ),
        ),
        texts(final(warnings)@) == texts(old(warnings)@) + read_warnings(user)
            + system_read_warnings(system),
{
    let mut entries: Vec<TccEntry> = Vec::new();
    proof {
        assert(models(entries@) =~= Seq::empty());
    }
    take_read(user, &mut entries, warnings);
    match system {
        Some(read) => {
            take_read(read, &mut entries, warnings);
        },
        None => {
            proof {
                assert(texts(warnings@) + Seq::<Seq<char>>::empty() =~= texts(warnings@));
            }
        },
    }
    proof {
        assert(models(entries@) =~= entries_read(user) + system_entries_read(system));
    }
    let kept = filter_entries(entries, client_filter, service_filter);
    sort_entries(kept)
}

} // verus!
