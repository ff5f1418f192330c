//! The session: two store locations, a scope and the caller's privilege, and
//! the operations of the access layer on them.
//!
//! The operations make the calls into the stores. What a store holds is not
//! known to the verifier, so their contracts say what holds of every
//! outcome; the decisions taken on what the calls return are the functions
//! of the other modules, whose contracts are exact.

use vstd::prelude::*;
use vstd::string::*;
use crate::catalog::display_name_of;
use crate::diagnose::{
    is_coherent, machine_lines, machine_lines_of, push_store_lines, store_lines_of, ProbeModel,
    StoreProbe,
};
use crate::entry::{models, EntryModel, TccEntry};
use crate::error::{ErrorModel, TccError};
use crate::gate::{
    check_privilege, elevation_message, fingerprint_of, lacks_privilege, opt_view,
    privilege_verdict, reset_elevation_message, reset_refusal, schema_unreadable,
    schema_verdict, schema_verdict_of, store_for, visit_for, visit_of, warning_for,
    write_store, DbTarget, Store, Visit,
};
use crate::query::{
    in_listing_order, is_listing_of, lemma_listing_members, lemma_selection_members, opt_text,
    selected, selection,
};
use crate::reader::{
    entries_read, is_read_failure, is_read_outcome, merge_reads, read_db, read_warnings,
    skipped_row_prefix,
    system_entries_read, system_read_warnings, well_read,
};
use crate::render::store_seconds;
use crate::resolve::{resolution, resolve_service, resolves_as, Resolution};
use crate::store::{
    execute, failure_text, home_dir, open_read_only, open_read_write, open_store, path_exists,
    read_text,
};
use crate::text::{has_prefix, texts};
use crate::writer::{
    action_of, action_word, conclude_reset, conclude_write, failure_message, missing_service,
    report_view, reset_result, reset_summary, service_statement, service_texts, statement,
    statement_numbers, statement_texts, store_failure, success_message, tally_after,
    tally_failed, warning_lines, ResetTally, StoreReset, TallyModel, WriteKind,
};

verus! {

/// A session of the access layer.
#[derive(Debug)]
pub struct TccDb {
    user_db_path: String,
    system_db_path: String,
    target: DbTarget,
    elevated: bool,
    now: i64,
    warnings: Vec<String>,
}

/// The mathematical content of a [`TccDb`].
pub struct DbModel {
    /// Location of the per-user store.
    pub user_path: Seq<char>,
    /// Location of the machine-wide store.
    pub system_path: Seq<char>,
    /// The scope of the session.
    pub target: DbTarget,
    /// Whether the caller holds elevated privilege.
    pub elevated: bool,
    /// The session's time, in Unix seconds: what its writes are stamped
    /// with.
    pub now: int,
    /// The warnings that the operations have given and that nobody has
    /// taken yet, oldest first.
    pub warnings: Seq<Seq<char>>,
}

impl View for TccDb {
    type V = DbModel;

    closed spec fn view(&self) -> DbModel {
        DbModel {
            user_path: self.user_db_path@,
            system_path: self.system_db_path@,
            target: self.target,
            elevated: self.elevated,
            now: self.now as int,
            warnings: texts(self.warnings@),
        }
    }
}

/// The location of the machine-wide store.
pub open spec fn system_store_path() -> Seq<char> {
    "/Library/Application Support/com.apple.TCC/TCC.db"@
}

/// The location of the per-user store, below the home directory.
pub open spec fn user_store_path() -> Seq<char> {
    "Library/Application Support/com.apple.TCC/TCC.db"@
}

/// `rest` below the directory `base`: a separator is put between them
/// unless `base` is empty or ends with one.
pub open spec fn path_below(base: Seq<char>, rest: Seq<char>) -> Seq<char> {
    if base.len() == 0 || base.last() == '/' {
        base + rest
    } else {
        base + "/"@ + rest
    }
}

/// The location of a store in a session.
pub open spec fn path_of(db: DbModel, store: Store) -> Seq<char> {
    match store {
        Store::User => db.user_path,
        Store::System => db.system_path,
    }
}

/// Two states of one session: locations, scope and privilege agree.
pub open spec fn same_session(a: DbModel, b: DbModel) -> bool {
    &&& a.user_path == b.user_path
    &&& a.system_path == b.system_path
    &&& a.target == b.target
    &&& a.elevated == b.elevated
    &&& a.now == b.now
}

/// `after` holds the warnings of `before` and, after them, at most `n`
/// more.
pub open spec fn log_grew(before: DbModel, after: DbModel, n: int) -> bool {
    &&& before.warnings.len() <= after.warnings.len() <= before.warnings.len() + n
    &&& after.warnings.subrange(0, before.warnings.len() as int) == before.warnings
}

/// What opening a session from a home directory gives.
pub open spec fn session_at(
    home: Option<Seq<char>>,
    target: DbTarget,
    elevated: bool,
    r: Result<TccDb, TccError>,
) -> bool {
    match home {
        Some(h) => r matches Ok(db) && db@ == (DbModel {
            user_path: path_below(h, user_store_path()),
            system_path: system_store_path(),
            target,
            elevated,
            now: 0,
            warnings: Seq::empty(),
        }),
        None => r matches Err(e) && e@ == ErrorModel::HomeDirNotFound,
    }
}

/// What a verdict of the gatekeeper adds to the log: its warning, where it
/// has one.
pub open spec fn noted(warning: Option<Seq<char>>) -> Seq<Seq<char>> {
    match warning {
        Some(w) => seq![w],
        None => Seq::empty(),
    }
}

/// The write got as far as its statement: it succeeded, found no row, or
/// was refused by the store. Before that, a write fails without a verdict
/// on the store's layout.
pub open spec fn reached_statement(r: Result<String, TccError>) -> bool {
    match r {
        Ok(_) => true,
        Err(e) => e@ is NotFound || e@ is WriteFailed,
    }
}

/// The log after a write on a store whose table definition is `definition`:
/// a write that got as far as its statement has noted the gatekeeper's
/// warning about the definition, where there is one; any other write has
/// left the log as it was.
pub open spec fn log_after_write(
    before: Seq<Seq<char>>,
    r: Result<String, TccError>,
    definition: Seq<char>,
) -> Seq<Seq<char>> {
    if reached_statement(r) {
        before + noted(warning_for(fingerprint_of(definition)))
    } else {
        before
    }
}

/// The log after a write is what the write leaves for some table
/// definition of the store.
pub open spec fn write_logged(before: DbModel, after: DbModel, r: Result<String, TccError>) -> bool {
    exists|definition: Seq<char>|
        after.warnings == #[trigger] log_after_write(before.warnings, r, definition)
}

/// What a write for one (service, client) pair may report, whatever the
/// store holds.
///
/// An input that resolves to no key fails as the resolver says. A write
/// that needs the machine-wide store without the privilege for it is
/// refused. Any other write confirms itself in the words of its kind, or
/// fails in one of four ways: the store cannot be opened, its table
/// definition cannot be read, the statement is refused, or, for a write
/// other than a grant, the pair has no row.
pub open spec fn write_attempt(
    db: DbModel,
    kind: WriteKind,
    input: Seq<char>,
    client: Seq<char>,
    r: Result<String, TccError>,
) -> bool {
    match resolution(input) {
        Resolution::Key(key) => {
            let store = store_for(db.target, key);
            if lacks_privilege(store, db.elevated) {
                r matches Err(e) && e@ == (ErrorModel::NeedsRoot {
                    message: elevation_message(key, action_of(kind), input, client),
                })
            } else {
                match r {
                    Ok(m) => m@ == success_message(kind, display_name_of(key), client),
                    Err(e) => match e@ {
                        ErrorModel::DbOpen { path, source } => path == path_of(db, store),
                        ErrorModel::SchemaInvalid(_) => e@ == schema_unreadable(),
                        ErrorModel::WriteFailed(m) => exists|cause: Seq<char>|
                            m == #[trigger] failure_message(kind, cause),
                        ErrorModel::NotFound { service, client: c } => kind != WriteKind::Grant
                            && service == missing_service(kind, display_name_of(key)) && c
                            == client,
                        _ => false,
                    },
                }
            }
        },
        _ => r is Err && resolves_as(input, r),
    }
}

/// The label under which a store's failure is recorded.
pub open spec fn store_label(store: Store) -> Seq<char> {
    match store {
        Store::User => "user"@,
        Store::System => "system"@,
    }
}

/// The label under which a store's failure is recorded.
pub fn label_of(store: Store) -> (r: &'static str)
    ensures
        r@ == store_label(store),
{
    match store {
        Store::User => "user",
        Store::System => "system",
    }
}

/// The tally after the visit of one store: unchanged where the store is
/// missing; with the refusal as the store's failure where the caller lacks
/// the privilege for it; else with what the reset in the store gave.
pub open spec fn tally_visited(
    tally: TallyModel,
    store: Store,
    key: Seq<char>,
    input: Seq<char>,
    exists: bool,
    elevated: bool,
    gave: StoreReset,
) -> TallyModel {
    match visit_of(store, exists, elevated) {
        Visit::Skip => tally,
        Visit::Refuse => tally_failed(
            tally,
            store_label(store),
            reset_elevation_message(key, input),
        ),
        Visit::Reset => tally_after(tally, store_label(store), gave),
    }
}

/// `after` is `before` after the visit of `store`, for some state of the
/// store.
pub open spec fn is_visit(
    before: TallyModel,
    after: TallyModel,
    store: Store,
    key: Seq<char>,
    input: Seq<char>,
    elevated: bool,
) -> bool {
    exists|exists: bool, gave: StoreReset|
        after == #[trigger] tally_visited(before, store, key, input, exists, elevated, gave)
}

/// The tally of the reset of a whole service: the user store is visited
/// first and, in combined scope, the machine-wide store after it.
pub open spec fn reset_tally(
    db: DbModel,
    key: Seq<char>,
    input: Seq<char>,
    user_exists: bool,
    user_gave: StoreReset,
    system_exists: bool,
    system_gave: StoreReset,
) -> TallyModel {
    let first = tally_visited(
        TallyModel { deleted: 0, errors: Seq::empty() },
        Store::User,
        key,
        input,
        user_exists,
        db.elevated,
        user_gave,
    );
    match db.target {
        DbTarget::User => first,
        DbTarget::Default => tally_visited(
            first,
            Store::System,
            key,
            input,
            system_exists,
            db.elevated,
            system_gave,
        ),
    }
}

/// What the reset of a whole service reports, given what each store gave.
pub open spec fn reset_report(
    db: DbModel,
    key: Seq<char>,
    input: Seq<char>,
    user_exists: bool,
    user_gave: StoreReset,
    system_exists: bool,
    system_gave: StoreReset,
) -> Result<Seq<char>, ErrorModel> {
    reset_result(
        display_name_of(key),
        reset_tally(db, key, input, user_exists, user_gave, system_exists, system_gave),
    )
}

/// What the reset of a whole service may report, whatever the stores hold.
///
/// An input that resolves to no key fails as the resolver says. Any other
/// report is the conclusion of the tally over the stores in scope, the user
/// store first: a store that is missing adds nothing, the machine-wide store
/// without the privilege for it adds the refusal as its failure, and any
/// other store adds what its reset gave. So the reset fails only where no
/// row was deleted and some store failed.
pub open spec fn reset_attempt(db: DbModel, input: Seq<char>, r: Result<String, TccError>) -> bool {
    match resolution(input) {
        Resolution::Key(key) => exists|
            user_exists: bool,
            user_gave: StoreReset,
            system_exists: bool,
            system_gave: StoreReset,
        |
            report_view(r) == #[trigger] reset_report(
                db,
                key,
                input,
                user_exists,
                user_gave,
                system_exists,
                system_gave,
            ),
        _ => r is Err && resolves_as(input, r),
    }
}

/// With elevated privilege and both stores there, the rows deleted in the
/// two stores add up in the report.
pub proof fn lemma_reset_counts_both_stores(
    db: DbModel,
    key: Seq<char>,
    input: Seq<char>,
    in_user: usize,
    in_system: usize,
)
    requires
        db.target == DbTarget::Default,
        db.elevated,
        in_user + in_system <= usize::MAX,
    ensures
        reset_report(
            db,
            key,
            input,
            true,
            StoreReset::Deleted(in_user),
            true,
            StoreReset::Deleted(in_system),
        ) == Ok::<Seq<char>, ErrorModel>(
            reset_summary(display_name_of(key), (in_user + in_system) as nat),
        ),
{
    reveal_with_fuel(warning_lines, 1);
    let summary = reset_summary(display_name_of(key), (in_user + in_system) as nat);
    assert(summary + Seq::<char>::empty() =~= summary);
}

/// Rows deleted in the user store are not lost where the machine-wide store
/// is refused for want of privilege, or fails: the reset succeeds, reports
/// the rows deleted, and names the other store's failure in a warning.
pub proof fn lemma_reset_keeps_deletions(
    db: DbModel,
    key: Seq<char>,
    input: Seq<char>,
    in_user: usize,
    cause: String,
)
    requires
        db.target == DbTarget::Default,
        in_user > 0,
    ensures
        !db.elevated ==> reset_report(
            db,
            key,
            input,
            true,
            StoreReset::Deleted(in_user),
            true,
            StoreReset::Failed(cause),
        ) == Ok::<Seq<char>, ErrorModel>(
            reset_summary(display_name_of(key), in_user as nat) + "\nWarning: "@ + store_failure(
                "system"@,
                reset_elevation_message(key, input),
            ),
        ),
        db.elevated ==> reset_report(
            db,
            key,
            input,
            true,
            StoreReset::Deleted(in_user),
            true,
            StoreReset::Failed(cause),
        ) == Ok::<Seq<char>, ErrorModel>(
            reset_summary(display_name_of(key), in_user as nat) + "\nWarning: "@ + store_failure(
                "system"@,
                cause@,
            ),
        ),
{
    reveal_with_fuel(warning_lines, 2);
    let summary = reset_summary(display_name_of(key), in_user as nat);
    let text = if db.elevated {
        store_failure("system"@, cause@)
    } else {
        store_failure("system"@, reset_elevation_message(key, input))
    };
    let errors = Seq::<Seq<char>>::empty().push(text);
    assert(errors.drop_last() =~= Seq::<Seq<char>>::empty());
    assert(warning_lines(errors) =~= "\nWarning: "@ + text);
    assert(summary + warning_lines(errors) =~= summary + "\nWarning: "@ + text);
}

/// What one read of the store at `path` may give: entries that carry the
/// display names of their services and the store's origin, or a failure
/// that names the store.
pub open spec fn is_read_of(
    path: Seq<char>,
    is_system: bool,
    read: Result<Vec<TccEntry>, TccError>,
) -> bool {
    match read {
        Ok(entries) => forall|i: int|
            0 <= i < entries@.len() ==> well_read(#[trigger] entries@[i]@, is_system),
        Err(e) => is_read_failure(path, e@),
    }
}

/// Each text of `skipped` reports a row of the store at `path` that was
/// skipped.
pub open spec fn are_skips(skipped: Seq<Seq<char>>, path: Seq<char>) -> bool {
    forall|k: int|
        0 <= k < skipped.len() ==> has_prefix(#[trigger] skipped[k], skipped_row_prefix(path))
}

/// One listing, told by what the reads of the stores gave.
///
/// The user store was read; the machine-wide store was read in combined
/// scope and not in user scope. Each read is what some scan of its store
/// gives. `entries` is the listing of what both reads gave, the user
/// store's entries first, after the filters. The log has
/// grown by the rows skipped in the user store, those skipped in the
/// machine-wide store, and one warning for each read that failed, in this
/// order.
pub open spec fn is_listing_run(
    before: DbModel,
    client_filter: Option<Seq<char>>,
    service_filter: Option<Seq<char>>,
    user: Result<Vec<TccEntry>, TccError>,
    system: Option<Result<Vec<TccEntry>, TccError>>,
    skipped_user: Seq<Seq<char>>,
    skipped_system: Seq<Seq<char>>,
    entries: Seq<EntryModel>,
    after: DbModel,
) -> bool {
    &&& is_read_of(before.user_path, false, user)
    &&& is_read_outcome(
        before.user_path,
        false,
        user,
        before.warnings,
        before.warnings + skipped_user,
    )
    &&& match system {
        Some(read) => {
            &&& before.target == DbTarget::Default
            &&& is_read_of(before.system_path, true, read)
            &&& is_read_outcome(
                before.system_path,
                true,
                read,
                before.warnings + skipped_user,
                before.warnings + skipped_user + skipped_system,
            )
        },
        None => before.target == DbTarget::User && skipped_system.len() == 0,
    }
    &&& are_skips(skipped_user, before.user_path)
    &&& are_skips(skipped_system, before.system_path)
    &&& is_listing_of(
        entries,
        selection(
            entries_read(user) + system_entries_read(system),
            client_filter,
            service_filter,
        ),
    )
    &&& after.warnings == before.warnings + skipped_user + skipped_system + read_warnings(user)
        + system_read_warnings(system)
}

/// A listing and the state after it are what some reads of the stores in
/// scope give.
pub open spec fn is_listing_outcome(
    before: DbModel,
    client_filter: Option<Seq<char>>,
    service_filter: Option<Seq<char>>,
    entries: Seq<EntryModel>,
    after: DbModel,
) -> bool {
    exists|
        user: Result<Vec<TccEntry>, TccError>,
        system: Option<Result<Vec<TccEntry>, TccError>>,
        skipped_user: Seq<Seq<char>>,
        skipped_system: Seq<Seq<char>>,
    | #[trigger]
        is_listing_run(
            before,
            client_filter,
            service_filter,
            user,
            system,
            skipped_user,
            skipped_system,
            entries,
            after,
        )
}

/// What every listing run gives, whatever the stores hold: the entries are
/// in listing order, and each passes both filters and carries the display
/// name of its service; in user scope none comes from the machine-wide
/// store.
pub proof fn lemma_listing_run(
    before: DbModel,
    client_filter: Option<Seq<char>>,
    service_filter: Option<Seq<char>>,
    user: Result<Vec<TccEntry>, TccError>,
    system: Option<Result<Vec<TccEntry>, TccError>>,
    skipped_user: Seq<Seq<char>>,
    skipped_system: Seq<Seq<char>>,
    entries: Seq<EntryModel>,
    after: DbModel,
)
    requires
        is_listing_run(
            before,
            client_filter,
            service_filter,
            user,
            system,
            skipped_user,
            skipped_system,
            entries,
            after,
        ),
    ensures
        in_listing_order(entries),
        forall|i: int|
            0 <= i < entries.len() ==> {
                &&& selected(#[trigger] entries[i], client_filter, service_filter)
                &&& entries[i].service_display == display_name_of(entries[i].service_raw)
                &&& before.target == DbTarget::User ==> !entries[i].is_system
            },
{
    let all = entries_read(user) + system_entries_read(system);
    lemma_listing_members(entries, selection(all, client_filter, service_filter));
    lemma_selection_members(all, client_filter, service_filter);
    assert forall|i: int| 0 <= i < entries.len() implies {
        &&& selected(#[trigger] entries[i], client_filter, service_filter)
        &&& entries[i].service_display == display_name_of(entries[i].service_raw)
        &&& before.target == DbTarget::User ==> !entries[i].is_system
    } by {
        let e = entries[i];
        assert(selection(all, client_filter, service_filter).contains(e));
        assert(all.contains(e));
        let k = choose|k: int| 0 <= k < all.len() && all[k] == e;
        if k < entries_read(user).len() {
            assert(well_read(e, false));
        } else {
            assert(well_read(e, true));
            assert(before.target == DbTarget::Default);
        }
    }
}

/// The lines of the diagnostic report, given what was found out about the
/// two stores.
pub open spec fn info_lines_of(
    db: DbModel,
    version: Seq<char>,
    protection: Seq<char>,
    user: ProbeModel,
    system: ProbeModel,
) -> Seq<Seq<char>> {
    machine_lines_of(version, protection) + store_lines_of("User DB"@, db.user_path, user)
        + store_lines_of("System DB"@, db.system_path, system)
}

/// The statement that asks a store for the definition of its permission
/// table.
pub open spec fn definition_statement() -> Seq<char> {
    "SELECT sql FROM sqlite_master WHERE name='access' AND type='table'"@
}

/// The statement that asks a store for the definition of its permission
/// table.
pub fn definition_query() -> (r: &'static str)
    ensures
        r@ == definition_statement(),
{
    "SELECT sql FROM sqlite_master WHERE name='access' AND type='table'"
}

/// Reads the definition of the permission table, where there is one.
fn table_definition(conn: &rusqlite::Connection) -> (r: Option<String>) {
    match read_text(conn, definition_query()) {
        Ok(definition) => Some(definition),
        Err(_) => None,
    }
}

/// Checks the table layout of an open store before a write.
///
/// The result is the verdict on the definition of the permission table, as
/// far as the store gives one: the write is refused when the definition
/// cannot be read; a definition with a known fingerprint passes in silence,
/// any other with the warning that names its fingerprint.
pub fn validate_schema(conn: &rusqlite::Connection) -> (r: Result<Option<String>, TccError>)
    ensures
        exists|definition: Option<Seq<char>>| #[trigger] schema_verdict_of(definition, r),
        r matches Ok(Some(w)) ==> has_prefix(
            w@,
            "Warning: Unknown TCC database schema (digest: "@,
        ),
{
    let definition = table_definition(conn);
    let ghost read = opt_view(definition);
    let r = schema_verdict(definition);
    proof {
        assert(schema_verdict_of(read, r));
        if let Ok(Some(w)) = &r {
            let start = "Warning: Unknown TCC database schema (digest: "@;
            assert(w@.subrange(0, start.len() as int) =~= start);
        }
    }
    r
}

/// Joins a path below a directory.
fn join_below(base: &str, rest: &str) -> (r: String)
    ensures
        r@ == path_below(base@, rest@),
{
    let n = base.unicode_len();
    let mut out = String::from_str(base);
    if n > 0 && base.get_char(n - 1) != '/' {
        out.append("/");
    }
    out.append(rest);
    out
}

impl TccDb {
    /// A session on the two given stores, without elevated privilege, with
    /// its time at the Unix epoch and with no warnings.
    pub fn with_paths(user: String, system: String, target: DbTarget) -> (db: TccDb)
        ensures
            db@ == (DbModel {
                user_path: user@,
                system_path: system@,
                target,
                elevated: false,
                now: 0,
                warnings: Seq::empty(),
            }),
    {
        let db = TccDb {
            user_db_path: user,
            system_db_path: system,
            target,
            elevated: false,
            now: 0,
            warnings: Vec::new(),
        };
        assert(db@.warnings =~= Seq::empty());
        db
    }

    /// The same session, with the caller's privilege as given.
    pub fn with_privilege(self, elevated: bool) -> (db: TccDb)
        ensures
            db@ == (DbModel { elevated, ..self@ }),
    {
        TccDb {
            user_db_path: self.user_db_path,
            system_db_path: self.system_db_path,
            target: self.target,
            elevated,
            now: self.now,
            warnings: self.warnings,
        }
    }

    /// The same session, with its time set to `unix` seconds after the Unix
    /// epoch. A grant, an enable and a disable stamp the row with this
    /// time.
    pub fn with_time(self, unix: i64) -> (db: TccDb)
        ensures
            db@ == (DbModel { now: unix as int, ..self@ }),
    {
        TccDb {
            user_db_path: self.user_db_path,
            system_db_path: self.system_db_path,
            target: self.target,
            elevated: self.elevated,
            now: unix,
            warnings: self.warnings,
        }
    }

    /// A session on the stores of this machine, given the home directory of
    /// the invoking user. Without a home directory there is no session.
    pub fn at_home(home: Option<String>, target: DbTarget, elevated: bool) -> (r: Result<
        TccDb,
        TccError,
    >)
        ensures
            session_at(crate::gate::opt_view(home), target, elevated, r),
    {
        match home {
            Some(h) => {
                let user = join_below(h.as_str(), "Library/Application Support/com.apple.TCC/TCC.db");
                let system = String::from_str("/Library/Application Support/com.apple.TCC/TCC.db");
                Ok(TccDb::with_paths(user, system, target).with_privilege(elevated))
            },
            None => Err(TccError::HomeDirNotFound),
        }
    }

    /// A session on the stores of this machine. The home directory is asked
    /// of the system; the caller says whether it holds elevated privilege.
    pub fn new(target: DbTarget, elevated: bool) -> (r: Result<TccDb, TccError>)
        ensures
            match r {
                Ok(db) => {
                    &&& db@.target == target
                    &&& db@.elevated == elevated
                    &&& db@.system_path == system_store_path()
                    &&& db@.now == 0
                    &&& db@.warnings.len() == 0
                    &&& exists|home: Seq<char>|
                        db@.user_path == #[trigger] path_below(home, user_store_path())
                },
                Err(e) => e@ == ErrorModel::HomeDirNotFound,
            },
    {
        TccDb::at_home(home_dir(), target, elevated)
    }

    /// Location of the per-user store.
    pub fn user_db_path(&self) -> (r: &str)
        ensures
            r@ == self@.user_path,
    {
        self.user_db_path.as_str()
    }

    /// Location of the machine-wide store.
    pub fn system_db_path(&self) -> (r: &str)
        ensures
            r@ == self@.system_path,
    {
        self.system_db_path.as_str()
    }

    /// The scope of the session.
    pub fn target(&self) -> (r: DbTarget)
        ensures
            r == self@.target,
    {
        self.target
    }

    /// The session's time, in Unix seconds.
    pub fn time(&self) -> (r: i64)
        ensures
            r == self@.now,
    {
        self.now
    }

    /// Whether the session holds elevated privilege.
    pub fn is_elevated(&self) -> (r: bool)
        ensures
            r == self@.elevated,
    {
        self.elevated
    }

    /// Hands out the warnings given since they were last taken, oldest
    /// first, and forgets them.
    pub fn take_warnings(&mut self) -> (r: Vec<String>)
        ensures
            texts(r@) == old(self)@.warnings,
            final(self)@ == (DbModel { warnings: Seq::empty(), ..old(self)@ }),
    {
        let mut taken: Vec<String> = Vec::new();
        taken.append(&mut self.warnings);
        proof {
            assert(texts(taken@) =~= old(self)@.warnings);
            assert(self@.warnings =~= Seq::empty());
        }
        taken
    }

    /// The text shown for a raw service key.
    pub fn service_display_name(raw: &str) -> (r: String)
        ensures
            r@ == display_name_of(raw@),
    {
        crate::catalog::service_display_name(raw)
    }

    /// Whether a service's enforcement is machine-wide.
    pub fn is_system_service(service: &str) -> (r: bool)
        ensures
            r == crate::gate::is_machine_wide(service@),
    {
        crate::gate::is_system_service(service)
    }

    /// Renders a stored time in local time; zero gives `N/A`.
    pub fn format_timestamp(stored: i64) -> (r: String)
        ensures
            crate::render::is_rendering_of(stored as int, r@),
            stored == 0 ==> r@ == "N/A"@,
            stored != 0 ==> r@ == crate::text::decimal(stored as int)
                || crate::render::is_calendar_text(r@),
    {
        crate::render::format_timestamp(stored)
    }

    /// Resolves what an operator typed to one canonical service key.
    pub fn resolve_service_name(&self, input: &str) -> (r: Result<String, TccError>)
        ensures
            resolves_as(input@, r),
    {
        resolve_service(input)
    }

    /// The location of a store.
    pub fn store_path(&self, store: Store) -> (r: &str)
        ensures
            r@ == path_of(self@, store),
    {
        match store {
            Store::User => self.user_db_path.as_str(),
            Store::System => self.system_db_path.as_str(),
        }
    }

    /// The location of the store that a write for `service_key` goes to.
    pub fn write_db_path(&self, service_key: &str) -> (r: &str)
        ensures
            r@ == path_of(self@, store_for(self@.target, service_key@)),
    {
        self.store_path(write_store(self.target, service_key))
    }

    /// Checks the session's privilege for a write for `service_key`.
    pub fn check_root_for_write(
        &self,
        service_key: &str,
        action: &str,
        service_input: &str,
        client: &str,
    ) -> (r: Result<(), TccError>)
        ensures
            privilege_verdict(
                store_for(self@.target, service_key@),
                self@.elevated,
                service_key@,
                action@,
                service_input@,
                client@,
                r,
            ),
    {
        check_privilege(
            write_store(self.target, service_key),
            self.elevated,
            service_key,
            action,
            service_input,
            client,
        )
    }

    /// Opens the store that a write for `service_key` goes to and checks its
    /// table layout. On success the connection comes with the verdict on
    /// the table definition that the store gave: no warning, or the warning
    /// that names the definition's fingerprint. A failure is that of opening
    /// this store, or that of a store without a readable definition.
    fn open_writable(&self, service_key: &str) -> (r: Result<
        (rusqlite::Connection, Option<String>),
        TccError,
    >)
        ensures
            match r {
                Ok((_, warning)) => exists|definition: Seq<char>|
                    opt_view(warning) == #[trigger] warning_for(fingerprint_of(definition)),
                Err(e) => (e@ matches ErrorModel::DbOpen { path, source } && path == path_of(
                    self@,
                    store_for(self@.target, service_key@),
                )) || e@ == schema_unreadable(),
            },
    {
        let path = self.write_db_path(service_key);
        let conn = match open_store(path) {
            Ok(conn) => conn,
            Err(e) => {
                return Err(
                    TccError::DbOpen { path: String::from_str(path), source: failure_text(&e) },
                );
            },
        };
        let verdict = validate_schema(&conn);
        proof {
            let read = choose|definition: Option<Seq<char>>| #[trigger]
                schema_verdict_of(definition, verdict);
            if let Ok(warning) = &verdict {
                assert(read.is_some());
                assert(opt_view(*warning) == warning_for(fingerprint_of(read.unwrap())));
            }
        }
        match verdict {
            Ok(warning) => Ok((conn, warning)),
            Err(e) => Err(e),
        }
    }

    /// Notes a warning of the gatekeeper, where there is one: it is added
    /// at the end of the log.
    fn note(&mut self, warning: Option<String>)
        ensures
            final(self)@ == (DbModel {
                warnings: old(self)@.warnings + noted(opt_view(warning)),
                ..old(self)@
            }),
    {
        match warning {
            Some(w) => {
                self.warnings.push(w);
                assert(self@.warnings =~= old(self)@.warnings + seq![w@]);
            },
            None => {
                assert(self@.warnings =~= old(self)@.warnings + Seq::<Seq<char>>::empty());
            },
        }
    }

    /// Runs one write for a (service, client) pair.
    fn apply(&mut self, kind: WriteKind, service: &str, client: &str) -> (r: Result<
        String,
        TccError,
    >)
        ensures
            write_attempt(old(self)@, kind, service@, client@, r),
            write_logged(old(self)@, final(self)@, r),
            same_session(old(self)@, final(self)@),
            log_grew(old(self)@, final(self)@, 1),
    {
        let ghost logged = self@.warnings;
        proof {
            assert(logged.subrange(0, logged.len() as int) =~= logged);
        }
        let key = match resolve_service(service) {
            Ok(key) => key,
            Err(e) => {
                let r = Err(e);
                proof {
                    assert(!reached_statement(r));
                    assert(self@.warnings == log_after_write(logged, r, Seq::empty()));
                }
                return r;
            },
        };
        match self.check_root_for_write(key.as_str(), action_word(kind), service, client) {
            Ok(()) => {},
            Err(e) => {
                let r = Err(e);
                proof {
                    assert(self@.warnings == log_after_write(logged, r, Seq::empty()));
                }
                return r;
            },
        }
        let (conn, warning) = match self.open_writable(key.as_str()) {
            Ok(opened) => opened,
            Err(e) => {
                let r = Err(e);
                proof {
                    assert(self@.warnings == log_after_write(logged, r, Seq::empty()));
                }
                return r;
            },
        };
        let ghost definition = choose|definition: Seq<char>|
            opt_view(warning) == #[trigger] warning_for(fingerprint_of(definition));
        self.note(warning);
        let now = match kind {
            WriteKind::Grant | WriteKind::Enable | WriteKind::Disable => store_seconds(self.now),
            _ => 0,
        };
        let texts_bound = statement_texts(key.as_str(), client);
        let numbers = statement_numbers(kind, client, now);
        let outcome = match execute(&conn, statement(kind), &texts_bound, &numbers) {
            Ok(n) => Ok(n),
            Err(e) => Err(failure_text(&e)),
        };
        let r = conclude_write(kind, key.as_str(), client, outcome);
        proof {
            assert(reached_statement(r));
            assert(self@.warnings == log_after_write(logged, r, definition));
            assert(self@.warnings.subrange(0, logged.len() as int) =~= logged);
        }
        r
    }

    /// Grants the client access to the service: the row for the pair is
    /// inserted, or replaced, with status granted.
    pub fn grant(&mut self, service: &str, client: &str) -> (r: Result<String, TccError>)
        ensures
            write_attempt(old(self)@, WriteKind::Grant, service@, client@, r),
            write_logged(old(self)@, final(self)@, r),
            same_session(old(self)@, final(self)@),
            log_grew(old(self)@, final(self)@, 1),
    {
        self.apply(WriteKind::Grant, service, client)
    }

    /// Revokes the client's access to the service: the row for the pair is
    /// deleted. Fails when there is none.
    pub fn revoke(&mut self, service: &str, client: &str) -> (r: Result<String, TccError>)
        ensures
            write_attempt(old(self)@, WriteKind::Revoke, service@, client@, r),
            write_logged(old(self)@, final(self)@, r),
            same_session(old(self)@, final(self)@),
            log_grew(old(self)@, final(self)@, 1),
    {
        self.apply(WriteKind::Revoke, service, client)
    }

    /// Sets the status of the pair's row to granted. Fails when there is no
    /// row: it creates none.
    pub fn enable(&mut self, service: &str, client: &str) -> (r: Result<String, TccError>)
        ensures
            write_attempt(old(self)@, WriteKind::Enable, service@, client@, r),
            write_logged(old(self)@, final(self)@, r),
            same_session(old(self)@, final(self)@),
            log_grew(old(self)@, final(self)@, 1),
    {
        self.apply(WriteKind::Enable, service, client)
    }

    /// Sets the status of the pair's row to denied. Fails when there is no
    /// row.
    pub fn disable(&mut self, service: &str, client: &str) -> (r: Result<String, TccError>)
        ensures
            write_attempt(old(self)@, WriteKind::Disable, service@, client@, r),
            write_logged(old(self)@, final(self)@, r),
            same_session(old(self)@, final(self)@),
            log_grew(old(self)@, final(self)@, 1),
    {
        self.apply(WriteKind::Disable, service, client)
    }

    /// Tries the reset of a service in one store.
    fn reset_in(&self, store: Store, service_key: &str) -> (r: StoreReset) {
        let conn = match open_store(self.store_path(store)) {
            Ok(conn) => conn,
            Err(e) => {
                return StoreReset::Failed(failure_text(&e));
            },
        };
        match validate_schema(&conn) {
            Ok(_) => {},
            Err(e) => {
                return StoreReset::Failed(e.message());
            },
        }
        let texts_bound = service_texts(service_key);
        let numbers: Vec<i64> = Vec::new();
        match execute(&conn, service_statement(), &texts_bound, &numbers) {
            Ok(n) => StoreReset::Deleted(n),
            Err(e) => StoreReset::Failed(failure_text(&e)),
        }
    }

    /// Visits one store for the reset of a whole service: passes over a
    /// store that is missing, records the refusal where the caller lacks the
    /// privilege for the store, and else resets the service in it and
    /// records what that gave.
    fn visit(&self, store: Store, service_key: &str, service_input: &str, tally: &mut ResetTally)
        ensures
            is_visit(
                old(tally)@,
                final(tally)@,
                store,
                service_key@,
                service_input@,
                self@.elevated,
            ),
    {
        let present = path_exists(self.store_path(store));
        let label = label_of(store);
        match visit_for(store, present, self.elevated) {
            Visit::Skip => {
                proof {
                    assert(tally@ == tally_visited(
                        old(tally)@,
                        store,
                        service_key@,
                        service_input@,
                        present,
                        self@.elevated,
                        StoreReset::Deleted(0),
                    ));
                }
            },
            Visit::Refuse => {
                let refusal = reset_refusal(service_key, service_input);
                tally.record(label, StoreReset::Failed(refusal.message()));
                proof {
                    assert(tally@ == tally_visited(
                        old(tally)@,
                        store,
                        service_key@,
                        service_input@,
                        present,
                        self@.elevated,
                        StoreReset::Deleted(0),
                    ));
                }
            },
            Visit::Reset => {
                let gave = self.reset_in(store, service_key);
                let ghost outcome = gave;
                tally.record(label, gave);
                proof {
                    assert(tally@ == tally_visited(
                        old(tally)@,
                        store,
                        service_key@,
                        service_input@,
                        present,
                        self@.elevated,
                        outcome,
                    ));
                }
            },
        }
    }

    /// Deletes every row of a service, in each store of the scope: the user
    /// store first and, in combined scope, the machine-wide store after it.
    fn reset_all(&self, service: &str) -> (r: Result<String, TccError>)
        ensures
            reset_attempt(self@, service@, r),
    {
        let key = match resolve_service(service) {
            Ok(key) => key,
            Err(e) => {
                return Err(e);
            },
        };
        let mut tally = ResetTally::new();
        let ghost start = tally@;
        self.visit(Store::User, key.as_str(), service, &mut tally);
        let ghost first = tally@;
        match self.target {
            DbTarget::Default => {
                self.visit(Store::System, key.as_str(), service, &mut tally);
            },
            DbTarget::User => {},
        }
        let r = conclude_reset(key.as_str(), &tally);
        proof {
            let (user_exists, user_gave) = choose|exists: bool, gave: StoreReset|
                first == #[trigger] tally_visited(
                    start,
                    Store::User,
                    key@,
                    service@,
                    exists,
                    self@.elevated,
                    gave,
                );
            if self@.target == DbTarget::Default {
                let (system_exists, system_gave) = choose|exists: bool, gave: StoreReset|
                    tally@ == #[trigger] tally_visited(
                        first,
                        Store::System,
                        key@,
                        service@,
                        exists,
                        self@.elevated,
                        gave,
                    );
                assert(report_view(r) == reset_report(
                    self@,
                    key@,
                    service@,
                    user_exists,
                    user_gave,
                    system_exists,
                    system_gave,
                ));
            } else {
                assert(report_view(r) == reset_report(
                    self@,
                    key@,
                    service@,
                    user_exists,
                    user_gave,
                    false,
                    StoreReset::Deleted(0),
                ));
            }
        }
        r
    }

    /// Resets a service: for one client, the row of the pair is deleted, as
    /// by a revoke; without a client, every row of the service is deleted in
    /// each store of the scope.
    pub fn reset(&mut self, service: &str, client: Option<&str>) -> (r: Result<String, TccError>)
        ensures
            match client {
                Some(c) => write_attempt(old(self)@, WriteKind::Reset, service@, c@, r)
                    && write_logged(old(self)@, final(self)@, r),
                None => reset_attempt(old(self)@, service@, r) && final(self)@ == old(self)@,
            },
            same_session(old(self)@, final(self)@),
            log_grew(old(self)@, final(self)@, 1),
    {
        match client {
            Some(c) => self.apply(WriteKind::Reset, service, c),
            None => {
                proof {
                    assert(self@.warnings.subrange(0, self@.warnings.len() as int)
                        =~= self@.warnings);
                }
                self.reset_all(service)
            },
        }
    }

    /// Lists the entries of the stores in scope.
    ///
    /// The user store is always read, the machine-wide store in combined
    /// scope only. A store that cannot be read gives a warning and no
    /// entries. Whatever the stores hold, the listing is in listing order,
    /// each entry passes both filters and carries the display name of its
    /// service, and in user scope none comes from the machine-wide store.
    /// More exactly, the result is the listing of what the reads gave, as
    /// [`is_listing_outcome`] tells it: among entries of equal rank those of the
    /// user store come first, and the log grows by the rows skipped and by
    /// one warning for each read that failed.
    pub fn list(&mut self, client_filter: Option<&str>, service_filter: Option<&str>) -> (r:
        Result<Vec<TccEntry>, TccError>)
        ensures
            r matches Ok(entries) && {
                &&& in_listing_order(models(entries@))
                &&& forall|i: int|
                    0 <= i < entries@.len() ==> {
                        &&& selected(
                            #[trigger] entries@[i]@,
                            opt_text(client_filter),
                            opt_text(service_filter),
                        )
                        &&& entries@[i]@.service_display == display_name_of(
                            entries@[i]@.service_raw,
                        )
                        &&& old(self)@.target == DbTarget::User ==> !entries@[i]@.is_system
                    }
            },
            r matches Ok(entries) && is_listing_outcome(
                old(self)@,
                opt_text(client_filter),
                opt_text(service_filter),
                models(entries@),
                final(self)@,
            ),
            same_session(old(self)@, final(self)@),
            old(self)@.warnings.len() <= final(self)@.warnings.len(),
            final(self)@.warnings.subrange(0, old(self)@.warnings.len() as int) == old(
                self,
            )@.warnings,
    {
        let ghost logged = self@.warnings;
        let user = read_db(self.user_db_path.as_str(), false, &mut self.warnings);
        let ghost after_user = self@.warnings;
        let system = match self.target {
            DbTarget::Default => Some(
                read_db(self.system_db_path.as_str(), true, &mut self.warnings),
            ),
            DbTarget::User => None,
        };
        let ghost after_system = self@.warnings;
        let ghost cf = opt_text(client_filter);
        let ghost sf = opt_text(service_filter);
        let ghost user_read = user;
        let ghost system_read = system;
        let ghost skipped_user = after_user.subrange(logged.len() as int, after_user.len() as int);
        let ghost skipped_system = after_system.subrange(
            after_user.len() as int,
            after_system.len() as int,
        );
        let entries = merge_reads(user, system, client_filter, service_filter, &mut self.warnings);
        proof {
            assert(after_user =~= logged + skipped_user);
            assert(after_system =~= after_user + skipped_system);
            assert(self@.warnings =~= logged + skipped_user + skipped_system + read_warnings(
                user_read,
            ) + system_read_warnings(system_read));
            assert(self@.warnings.subrange(0, logged.len() as int) =~= logged);
            assert(is_listing_run(
                old(self)@,
                cf,
                sf,
                user_read,
                system_read,
                skipped_user,
                skipped_system,
                models(entries@),
                self@,
            ));
            lemma_listing_run(
                old(self)@,
                cf,
                sf,
                user_read,
                system_read,
                skipped_user,
                skipped_system,
                models(entries@),
                self@,
            );
            assert(is_listing_outcome(old(self)@, cf, sf, models(entries@), self@));
            assert forall|i: int| 0 <= i < entries@.len() implies {
                &&& selected(#[trigger] entries@[i]@, cf, sf)
                &&& entries@[i]@.service_display == display_name_of(entries@[i]@.service_raw)
                &&& old(self)@.target == DbTarget::User ==> !entries@[i]@.is_system
            } by {
                assert(models(entries@)[i] == entries@[i]@);
            }
        }
        Ok(entries)
    }

    /// Finds out what the diagnostic report says of one store: whether it is
    /// there, and if so whether it can be opened for reading and for
    /// writing, and, if it can be read, the definition of its table.
    fn probe(path: &str) -> (r: StoreProbe)
        ensures
            is_coherent(r@),
    {
        if !path_exists(path) {
            return StoreProbe { exists: false, readable: false, writable: false, definition: None };
        }
        let readable = open_read_only(path).is_ok();
        let writable = open_read_write(path).is_ok();
        let definition = if readable {
            match open_read_only(path) {
                Ok(conn) => table_definition(&conn),
                Err(_) => None,
            }
        } else {
            None
        };
        StoreProbe { exists: true, readable, writable, definition }
    }

    /// The diagnostic report: the machine's version and protection state, as
    /// given, and for each store its location, whether it exists and can be
    /// read and written, and the fingerprint of its table definition.
    /// Nothing is changed.
    pub fn info(&self, version: &str, protection: &str) -> (r: Vec<String>)
        ensures
            exists|user: ProbeModel, system: ProbeModel|
                is_coherent(user) && is_coherent(system) && texts(r@) == #[trigger] info_lines_of(
                    self@,
                    version@,
                    protection@,
                    user,
                    system,
                ),
    {
        let mut lines = machine_lines(version, protection);
        let user = TccDb::probe(self.store_path(Store::User));
        push_store_lines(&mut lines, "User DB", self.store_path(Store::User), &user);
        let system = TccDb::probe(self.store_path(Store::System));
        push_store_lines(&mut lines, "System DB", self.store_path(Store::System), &system);
        proof {
            assert(texts(lines@) == info_lines_of(self@, version@, protection@, user@, system@));
        }
        lines
    }
}

} // verus!
