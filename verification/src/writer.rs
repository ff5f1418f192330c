//! The mutators' decisions: which statement a write runs, and what its
//! outcome means for the operator.

use vstd::prelude::*;
use vstd::string::*;
use crate::catalog::{display_name_of, service_display_name};
use crate::error::{ErrorModel, TccError};
use crate::text::{decimal, join_texts, joined, push_decimal, texts};

verus! {

/// The writes that address one (service, client) pair.
#[derive(Clone, Copy, Debug, PartialEq, Eq, Structural)]
pub enum WriteKind {
    /// Insert the row, or replace it, with status granted.
    Grant,
    /// Delete the row.
    Revoke,
    /// Set the status of an existing row to granted.
    Enable,
    /// Set the status of an existing row to denied.
    Disable,
    /// Delete the row, as part of a reset.
    Reset,
}

/// The word of the command that asks for a write.
pub open spec fn action_of(kind: WriteKind) -> Seq<char> {
    match kind {
        WriteKind::Grant => "grant"@,
        WriteKind::Revoke => "revoke"@,
        WriteKind::Enable => "enable"@,
        WriteKind::Disable => "disable"@,
        WriteKind::Reset => "reset"@,
    }
}

/// The statement that a write runs. Its first parameter is the service, its
/// second the client; a grant takes the client's kind and the time after
/// them, an enable or disable the time.
pub open spec fn statement_of(kind: WriteKind) -> Seq<char> {
    match kind {
        WriteKind::Grant =>
            "INSERT OR REPLACE INTO access (service, client, client_type, auth_value, auth_reason, auth_version, flags, last_modified) VALUES (?1, ?2, ?3, 2, 0, 1, 0, ?4)"@,
        WriteKind::Revoke => "DELETE FROM access WHERE service = ?1 AND client = ?2"@,
        WriteKind::Enable =>
            "UPDATE access SET auth_value = 2, last_modified = ?3 WHERE service = ?1 AND client = ?2"@,
        WriteKind::Disable =>
            "UPDATE access SET auth_value = 0, last_modified = ?3 WHERE service = ?1 AND client = ?2"@,
        WriteKind::Reset => "DELETE FROM access WHERE service = ?1 AND client = ?2"@,
    }
}

/// The statement that deletes every row of a service.
pub open spec fn reset_statement() -> Seq<char> {
    "DELETE FROM access WHERE service = ?1"@
}

/// The kind of a client, as the store records it: 0 for a path, 1 for a
/// bundle identifier.
pub open spec fn client_kind_of(client: Seq<char>) -> int {
    if crate::text::is_path_like(client) {
        0
    } else {
        1
    }
}

/// The confirmation of a write.
pub open spec fn success_message(kind: WriteKind, display: Seq<char>, client: Seq<char>) -> Seq<
    char,
> {
    match kind {
        WriteKind::Grant => "Granted "@ + display + " access for '"@ + client + "'"@,
        WriteKind::Revoke => "Revoked "@ + display + " access for '"@ + client + "'"@,
        WriteKind::Enable => "Enabled "@ + display + " access for '"@ + client + "'"@,
        WriteKind::Disable => "Disabled "@ + display + " access for '"@ + client + "'"@,
        WriteKind::Reset => "Reset "@ + display + " entry for '"@ + client + "'"@,
    }
}

/// The text of a write that the store refused, with its cause.
pub open spec fn failure_message(kind: WriteKind, cause: Seq<char>) -> Seq<char> {
    match kind {
        WriteKind::Grant => "Failed to grant: "@ + cause
            + ". Note: SIP may prevent TCC.db writes on macOS 10.14+"@,
        WriteKind::Revoke => "Failed to revoke: "@ + cause
            + ". Note: SIP may prevent TCC.db writes."@,
        WriteKind::Enable => "Failed to enable: "@ + cause
            + ". Note: SIP may prevent TCC.db writes."@,
        WriteKind::Disable => "Failed to disable: "@ + cause
            + ". Note: SIP may prevent TCC.db writes."@,
        WriteKind::Reset => "Failed to reset: "@ + cause,
    }
}

/// How the service is named when the pair has no row. An enable adds the
/// advice to grant, since it creates no rows.
pub open spec fn missing_service(kind: WriteKind, display: Seq<char>) -> Seq<char> {
    match kind {
        WriteKind::Enable => display + ". Use `tcc grant` to insert a new entry"@,
        _ => display,
    }
}

/// The outcome of a statement, as plain values: the rows it changed, or the
/// cause of its failure.
pub open spec fn outcome_view(outcome: Result<usize, String>) -> Result<nat, Seq<char>> {
    match outcome {
        Ok(n) => Ok(n as nat),
        Err(cause) => Err(cause@),
    }
}

/// What a write reports, given the outcome of its statement: a failure of
/// the statement is a write failure; a statement other than a grant that
/// changed no row found nothing; anything else is a success.
pub open spec fn write_result(
    kind: WriteKind,
    display: Seq<char>,
    client: Seq<char>,
    outcome: Result<nat, Seq<char>>,
) -> Result<Seq<char>, ErrorModel> {
    match outcome {
        Err(cause) => Err(ErrorModel::WriteFailed(failure_message(kind, cause))),
        Ok(n) => if n == 0 && kind != WriteKind::Grant {
            Err(ErrorModel::NotFound { service: missing_service(kind, display), client })
        } else {
            Ok(success_message(kind, display, client))
        },
    }
}

/// The view of a report.
pub open spec fn report_view(r: Result<String, TccError>) -> Result<Seq<char>, ErrorModel> {
    match r {
        Ok(m) => Ok(m@),
        Err(e) => Err(e@),
    }
}

/// The word of the command that asks for a write.
pub fn action_word(kind: WriteKind) -> (r: &'static str)
    ensures
        r@ == action_of(kind),
{
    match kind {
        WriteKind::Grant => "grant",
        WriteKind::Revoke => "revoke",
        WriteKind::Enable => "enable",
        WriteKind::Disable => "disable",
        WriteKind::Reset => "reset",
    }
}

/// The statement that a write runs.
pub fn statement(kind: WriteKind) -> (r: &'static str)
    ensures
        r@ == statement_of(kind),
{
    match kind {
        WriteKind::Grant =>
            "INSERT OR REPLACE INTO access (service, client, client_type, auth_value, auth_reason, auth_version, flags, last_modified) VALUES (?1, ?2, ?3, 2, 0, 1, 0, ?4)",
        WriteKind::Revoke => "DELETE FROM access WHERE service = ?1 AND client = ?2",
        WriteKind::Enable =>
            "UPDATE access SET auth_value = 2, last_modified = ?3 WHERE service = ?1 AND client = ?2",
        WriteKind::Disable =>
            "UPDATE access SET auth_value = 0, last_modified = ?3 WHERE service = ?1 AND client = ?2",
        WriteKind::Reset => "DELETE FROM access WHERE service = ?1 AND client = ?2",
    }
}

/// The statement that deletes every row of a service; its one parameter is
/// the service.
pub fn service_statement() -> (r: &'static str)
    ensures
        r@ == reset_statement(),
{
    "DELETE FROM access WHERE service = ?1"
}

/// The numbers that a write binds after the service and the client: for a
/// grant the client's kind and the time, for an enable or disable the time,
/// for a delete none.
pub open spec fn numbers_of(kind: WriteKind, client: Seq<char>, now: int) -> Seq<int> {
    match kind {
        WriteKind::Grant => seq![client_kind_of(client), now],
        WriteKind::Enable => seq![now],
        WriteKind::Disable => seq![now],
        _ => Seq::empty(),
    }
}

/// The texts that a write binds: the service's key, then the client.
pub fn statement_texts(service_key: &str, client: &str) -> (r: Vec<String>)
    ensures
        texts(r@) == seq![service_key@, client@],
{
    let mut bound: Vec<String> = Vec::new();
    bound.push(String::from_str(service_key));
    bound.push(String::from_str(client));
    assert(texts(bound@) =~= seq![service_key@, client@]);
    bound
}

/// The text that the delete of a whole service binds: the service's key.
pub fn service_texts(service_key: &str) -> (r: Vec<String>)
    ensures
        texts(r@) == seq![service_key@],
{
    let mut bound: Vec<String> = Vec::new();
    bound.push(String::from_str(service_key));
    assert(texts(bound@) =~= seq![service_key@]);
    bound
}

/// The numbers that a write binds after the service and the client.
pub fn statement_numbers(kind: WriteKind, client: &str, now: i64) -> (r: Vec<i64>)
    ensures
        r@.map_values(|n: i64| n as int) == numbers_of(kind, client@, now as int),
{
    let mut numbers: Vec<i64> = Vec::new();
    match kind {
        WriteKind::Grant => {
            let client_kind: i64 = if crate::text::starts_with_slash(client) {
                0
            } else {
                1
            };
            numbers.push(client_kind);
            numbers.push(now);
        },
        WriteKind::Enable => {
            numbers.push(now);
        },
        WriteKind::Disable => {
            numbers.push(now);
        },
        _ => {},
    }
    assert(numbers@.map_values(|n: i64| n as int) =~= numbers_of(kind, client@, now as int));
    numbers
}

/// The confirmation of a write.
fn confirmation(kind: WriteKind, display: &str, client: &str) -> (r: String)
    ensures
        r@ == success_message(kind, display@, client@),
{
    let mut out = String::from_str(
        match kind {
            WriteKind::Grant => "Granted ",
            WriteKind::Revoke => "Revoked ",
            WriteKind::Enable => "Enabled ",
            WriteKind::Disable => "Disabled ",
            WriteKind::Reset => "Reset ",
        },
    );
    out.append(display);
    out.append(
        match kind {
            WriteKind::Reset => " entry for '",
            _ => " access for '",
        },
    );
    out.append(client);
    out.append("'");
    out
}

/// The text of a write that the store refused.
fn refusal(kind: WriteKind, cause: &str) -> (r: String)
    ensures
        r@ == failure_message(kind, cause@),
{
    let mut out = String::from_str(
        match kind {
            WriteKind::Grant => "Failed to grant: ",
            WriteKind::Revoke => "Failed to revoke: ",
            WriteKind::Enable => "Failed to enable: ",
            WriteKind::Disable => "Failed to disable: ",
            WriteKind::Reset => "Failed to reset: ",
        },
    );
    out.append(cause);
    match kind {
        WriteKind::Grant => {
            out.append(". Note: SIP may prevent TCC.db writes on macOS 10.14+");
        },
        WriteKind::Reset => {
            assert(out@ =~= failure_message(kind, cause@));
        },
        _ => {
            out.append(". Note: SIP may prevent TCC.db writes.");
        },
    }
    out
}

/// Concludes a write from the outcome of its statement.
///
/// A statement that failed gives a write failure with the cause. A grant
/// that ran succeeded. Any other write succeeded if it changed a row, and
/// else found nothing for the pair.
pub fn conclude_write(
    kind: WriteKind,
    service_key: &str,
    client: &str,
    outcome: Result<usize, String>,
) -> (r: Result<String, TccError>)
    ensures
        report_view(r) == write_result(
            kind,
            display_name_of(service_key@),
            client@,
            outcome_view(outcome),
        ),
{
    let display = service_display_name(service_key);
    match outcome {
        Err(cause) => Err(TccError::WriteFailed(refusal(kind, cause.as_str()))),
        Ok(n) => {
            let grant = match kind {
                WriteKind::Grant => true,
                _ => false,
            };
            if n == 0 && !grant {
                let service = match kind {
                    WriteKind::Enable => {
                        let mut named = display;
                        named.append(". Use `tcc grant` to insert a new entry");
                        named
                    },
                    _ => display,
                };
                Err(TccError::NotFound { service, client: String::from_str(client) })
            } else {
                Ok(confirmation(kind, display.as_str(), client))
            }
        },
    }
}

/// What the reset of a whole service has done so far, over the stores it has
/// visited.
#[derive(Debug)]
pub struct ResetTally {
    /// Rows deleted, over all stores; it stops at the largest count.
    pub deleted: usize,
    /// One text for each store that failed, in the order of the visits.
    pub errors: Vec<String>,
}

/// The mathematical content of a [`ResetTally`].
pub struct TallyModel {
    pub deleted: nat,
    pub errors: Seq<Seq<char>>,
}

impl View for ResetTally {
    type V = TallyModel;

    open spec fn view(&self) -> TallyModel {
        TallyModel { deleted: self.deleted as nat, errors: texts(self.errors@) }
    }
}

/// What became of the reset in one store: the rows deleted, or the cause of
/// the failure to open it, to read its table definition, or to delete.
#[derive(Debug)]
pub enum StoreReset {
    Deleted(usize),
    Failed(String),
}

/// The text that records a store's failure: the store's label and the cause.
pub open spec fn store_failure(label: Seq<char>, cause: Seq<char>) -> Seq<char> {
    label + " DB: "@ + cause
}

/// The sum of two counts, stopping at the largest count.
pub open spec fn capped_sum(a: nat, b: nat) -> nat {
    if a + b > usize::MAX {
        usize::MAX as nat
    } else {
        a + b
    }
}

/// The tally after a store in which `n` rows were deleted.
pub open spec fn tally_deleted(tally: TallyModel, n: nat) -> TallyModel {
    TallyModel { deleted: capped_sum(tally.deleted, n), errors: tally.errors }
}

/// The tally after the store labelled `label` failed for `cause`.
pub open spec fn tally_failed(tally: TallyModel, label: Seq<char>, cause: Seq<char>) -> TallyModel {
    TallyModel { deleted: tally.deleted, errors: tally.errors.push(store_failure(label, cause)) }
}

/// The tally after one more store.
pub open spec fn tally_after(tally: TallyModel, label: Seq<char>, outcome: StoreReset) -> TallyModel {
    match outcome {
        StoreReset::Deleted(n) => tally_deleted(tally, n as nat),
        StoreReset::Failed(cause) => tally_failed(tally, label, cause@),
    }
}

/// The warnings that a successful reset appends to its report, one line
/// for each store that failed.
pub open spec fn warning_lines(errors: Seq<Seq<char>>) -> Seq<char>
    decreases errors.len(),
{
    if errors.len() == 0 {
        Seq::empty()
    } else {
        warning_lines(errors.drop_last()) + "\nWarning: "@ + errors.last()
    }
}

/// The first line of the report of a reset.
pub open spec fn reset_summary(display: Seq<char>, deleted: nat) -> Seq<char> {
    "Reset all "@ + display + " entries ("@ + decimal(deleted as int) + " deleted)"@
}

/// What the reset of a whole service reports. It failed only if no row was
/// deleted and some store failed; else it reports the rows deleted and, line
/// by line, the stores that failed.
pub open spec fn reset_result(display: Seq<char>, tally: TallyModel) -> Result<
    Seq<char>,
    ErrorModel,
> {
    if tally.deleted == 0 && tally.errors.len() > 0 {
        Err(ErrorModel::WriteFailed("Failed to reset: "@ + joined(tally.errors, "; "@)))
    } else {
        Ok(reset_summary(display, tally.deleted) + warning_lines(tally.errors))
    }
}

impl ResetTally {
    /// The tally before any store was visited.
    pub fn new() -> (r: ResetTally)
        ensures
            r@ == (TallyModel { deleted: 0, errors: Seq::empty() }),
    {
        let r = ResetTally { deleted: 0, errors: Vec::new() };
        assert(r@.errors =~= Seq::empty());
        r
    }

    /// Takes in what became of the reset in the store labelled `label`.
    pub fn record(&mut self, label: &str, outcome: StoreReset)
        ensures
            final(self)@ == tally_after(old(self)@, label@, outcome),
    {
        match outcome {
            StoreReset::Deleted(n) => {
                if n > usize::MAX - self.deleted {
                    self.deleted = usize::MAX;
                } else {
                    self.deleted = self.deleted + n;
                }
                assert(self@.errors == old(self)@.errors);
            },
            StoreReset::Failed(cause) => {
                let mut text = String::from_str(label);
                text.append(" DB: ");
                text.append(cause.as_str());
                self.errors.push(text);
                assert(self@.errors =~= old(self)@.errors.push(store_failure(label@, cause@)));
            },
        }
    }
}

/// Concludes the reset of a whole service from its tally.
pub fn conclude_reset(service_key: &str, tally: &ResetTally) -> (r: Result<String, TccError>)
    ensures
        report_view(r) == reset_result(display_name_of(service_key@), tally@),
{
    if tally.deleted == 0 && tally.errors.len() > 0 {
        let mut message = String::from_str("Failed to reset: ");
        message.append(join_texts(&tally.errors, "; ").as_str());
        Err(TccError::WriteFailed(message))
    } else {
        let mut message = String::from_str("Reset all ");
        message.append(service_display_name(service_key).as_str());
        message.append(" entries (");
        push_decimal(&mut message, tally.deleted as u64);
        message.append(" deleted)");
        let ghost summary = message@;
        let ghost errors = texts(tally.errors@);
        let mut i: usize = 0;
        proof {
            assert(errors.take(0) =~= Seq::<Seq<char>>::empty());
            assert(summary + warning_lines(errors.take(0)) =~= summary);
        }
        while i < tally.errors.len()
            invariant
                i <= tally.errors@.len(),
                errors == texts(tally.errors@),
                message@ == summary + warning_lines(errors.take(i as int)),
            decreases tally.errors@.len() - i,
        {
            proof {
                let next = errors.take(i as int + 1);
                assert(next.drop_last() =~= errors.take(i as int));
                assert(next.last() == tally.errors@[i as int]@);
            }
            message.append("\nWarning: ");
            message.append(tally.errors[i].as_str());
            proof {
                assert(message@ =~= summary + warning_lines(errors.take(i as int + 1)));
            }
            i += 1;
        }
        proof {
            assert(errors.take(i as int) =~= errors);
        }
        Ok(message)
    }
}

/// A reset that deleted rows in some store succeeds, whatever became of the
/// other stores: its report starts with the number of rows deleted over all
/// stores, and each store that failed follows as a warning.
pub proof fn lemma_partial_reset_succeeds(display: Seq<char>, tally: TallyModel)
    requires
        tally.deleted > 0,
    ensures
        reset_result(display, tally) == Ok::<Seq<char>, ErrorModel>(
            reset_summary(display, tally.deleted) + warning_lines(tally.errors),
        ),
{
}

/// The rows deleted in two stores add up, and a store that fails between
/// them takes nothing away.
pub proof fn lemma_tally_adds_up(
    start: TallyModel,
    first_label: Seq<char>,
    first: usize,
    failed_label: Seq<char>,
    cause: String,
    second_label: Seq<char>,
    second: usize,
)
    requires
        start.deleted + first + second <= usize::MAX,
    ensures
        tally_after(
            tally_after(
                tally_after(start, first_label, StoreReset::Deleted(first)),
                failed_label,
                StoreReset::Failed(cause),
            ),
            second_label,
            StoreReset::Deleted(second),
        ).deleted == start.deleted + first + second,
{
}

} // verus!
