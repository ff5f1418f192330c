//! The write gatekeeper's decisions: which store a write goes to, whether
//! the caller's privilege suffices, and whether the store's table layout is
//! one of the known ones.

use vstd::prelude::*;
use vstd::string::*;
use crate::catalog::{display_name_of, service_display_name};
use crate::error::{ErrorModel, TccError};
use crate::text::text_eq;

verus! {

/// The scope of a session.
#[derive(Clone, Copy, Debug, PartialEq, Eq, Structural)]
pub enum DbTarget {
    /// Both stores are read; writes for machine-wide services go to the
    /// machine-wide store.
    Default,
    /// Only the per-user store is read and written.
    User,
}

/// One of the two physical stores.
#[derive(Clone, Copy, Debug, PartialEq, Eq, Structural)]
pub enum Store {
    /// The store under the invoking user's profile.
    User,
    /// The machine-wide store.
    System,
}

/// The services whose enforcement is machine-wide.
pub open spec fn is_machine_wide(service: Seq<char>) -> bool {
    service == "kTCCServiceAccessibility"@
        || service == "kTCCServiceScreenCapture"@
        || service == "kTCCServiceListenEvent"@
        || service == "kTCCServicePostEvent"@
        || service == "kTCCServiceEndpointSecurityClient"@
        || service == "kTCCServiceDeveloperTool"@
}

/// Whether a service's enforcement is machine-wide.
pub fn is_system_service(service: &str) -> (r: bool)
    ensures
        r == is_machine_wide(service@),
{
    text_eq(service, "kTCCServiceAccessibility")
        || text_eq(service, "kTCCServiceScreenCapture")
        || text_eq(service, "kTCCServiceListenEvent")
        || text_eq(service, "kTCCServicePostEvent")
        || text_eq(service, "kTCCServiceEndpointSecurityClient")
        || text_eq(service, "kTCCServiceDeveloperTool")
}

/// The store that a write for `service` goes to under `target`.
pub open spec fn store_for(target: DbTarget, service: Seq<char>) -> Store {
    match target {
        DbTarget::User => Store::User,
        DbTarget::Default => if is_machine_wide(service) {
            Store::System
        } else {
            Store::User
        },
    }
}

/// Selects the store that a write for `service` goes to: always the user
/// store in user scope, else the machine-wide store for machine-wide
/// services and the user store for the others.
pub fn write_store(target: DbTarget, service: &str) -> (r: Store)
    ensures
        r == store_for(target, service@),
{
    match target {
        DbTarget::User => Store::User,
        DbTarget::Default => if is_system_service(service) {
            Store::System
        } else {
            Store::User
        },
    }
}

/// A write to `store` is refused for want of privilege.
pub open spec fn lacks_privilege(store: Store, elevated: bool) -> bool {
    store == Store::System && !elevated
}

/// What the reset of a whole service does with one store of its scope.
#[derive(Clone, Copy, Debug, PartialEq, Eq, Structural)]
pub enum Visit {
    /// The store is not there: it is passed over.
    Skip,
    /// The store needs a privilege that the caller lacks: it is left alone,
    /// and that is recorded as the store's failure.
    Refuse,
    /// The rows of the service are deleted in the store.
    Reset,
}

/// What the reset of a whole service does with a store, given whether the
/// store exists and whether the caller holds elevated privilege.
pub open spec fn visit_of(store: Store, exists: bool, elevated: bool) -> Visit {
    if !exists {
        Visit::Skip
    } else if lacks_privilege(store, elevated) {
        Visit::Refuse
    } else {
        Visit::Reset
    }
}

/// Decides what the reset of a whole service does with a store: a store
/// that is missing is passed over; the machine-wide store is refused to a
/// caller without elevated privilege; any other store is reset.
pub fn visit_for(store: Store, exists: bool, elevated: bool) -> (v: Visit)
    ensures
        v == visit_of(store, exists, elevated),
{
    if !exists {
        Visit::Skip
    } else {
        match store {
            Store::System => if elevated {
                Visit::Reset
            } else {
                Visit::Refuse
            },
            Store::User => Visit::Reset,
        }
    }
}

/// The refusal of a write for one client, with the command that would work.
pub open spec fn elevation_message(
    service: Seq<char>,
    action: Seq<char>,
    service_input: Seq<char>,
    client: Seq<char>,
) -> Seq<char> {
    "Service '"@ + display_name_of(service)
        + "' requires the system TCC database.\nRun with sudo: sudo tcc "@ + action + " "@
        + service_input + " "@ + client
}

/// The refusal of a reset of a whole service, with the command that would
/// work.
pub open spec fn reset_elevation_message(service: Seq<char>, service_input: Seq<char>) -> Seq<
    char,
> {
    "Resetting all '"@ + display_name_of(service)
        + "' entries requires the system TCC database.\nRun with sudo: sudo tcc reset "@
        + service_input
}

/// What the privilege check returns for a write to `store`.
pub open spec fn privilege_verdict(
    store: Store,
    elevated: bool,
    service: Seq<char>,
    action: Seq<char>,
    service_input: Seq<char>,
    client: Seq<char>,
    r: Result<(), TccError>,
) -> bool {
    if lacks_privilege(store, elevated) {
        r matches Err(e) && e@ == (ErrorModel::NeedsRoot {
            message: elevation_message(service, action, service_input, client),
        })
    } else {
        r is Ok
    }
}

/// Checks the caller's privilege for a write to `store`: a write to the
/// machine-wide store needs elevated privilege. The refusal names the
/// service and gives the command to run, made of the action, the service as
/// the operator typed it, and the client.
pub fn check_privilege(
    store: Store,
    elevated: bool,
    service: &str,
    action: &str,
    service_input: &str,
    client: &str,
) -> (r: Result<(), TccError>)
    ensures
        privilege_verdict(store, elevated, service@, action@, service_input@, client@, r),
{
    match store {
        Store::System => {
            if !elevated {
                let mut message = String::from_str("Service '");
                message.append(service_display_name(service).as_str());
                message.append("' requires the system TCC database.\nRun with sudo: sudo tcc ");
                message.append(action);
                message.append(" ");
                message.append(service_input);
                message.append(" ");
                message.append(client);
                return Err(TccError::NeedsRoot { message });
            }
            Ok(())
        },
        Store::User => Ok(()),
    }
}

/// The refusal of a whole-service reset for want of privilege.
pub fn reset_refusal(service: &str, service_input: &str) -> (r: TccError)
    ensures
        r@ == (ErrorModel::NeedsRoot {
            message: reset_elevation_message(service@, service_input@),
        }),
{
    let mut message = String::from_str("Resetting all '");
    message.append(service_display_name(service).as_str());
    message.append(
        "' entries requires the system TCC database.\nRun with sudo: sudo tcc reset ",
    );
    message.append(service_input);
    TccError::NeedsRoot { message }
}

/// The fingerprints of the table layouts that are known to be compatible.
pub open spec fn is_known_fingerprint(f: Seq<char>) -> bool {
    f == "8e93d38f7c"@
        || f == "9b2ea61b30"@
        || f == "1072dc0e4b"@
        || f == "ecc443615f"@
        || f == "80a4bb6912"@
        || f == "3d1c2a0e97"@
        || f == "cef70648de"@
        || f == "34abf99d20"@
        || f == "e3a2181c14"@
        || f == "f773496775"@
}

/// Whether a fingerprint is one of the known ones.
pub fn is_known_digest(fingerprint: &str) -> (r: bool)
    ensures
        r == is_known_fingerprint(fingerprint@),
{
    text_eq(fingerprint, "8e93d38f7c")
        || text_eq(fingerprint, "9b2ea61b30")
        || text_eq(fingerprint, "1072dc0e4b")
        || text_eq(fingerprint, "ecc443615f")
        || text_eq(fingerprint, "80a4bb6912")
        || text_eq(fingerprint, "3d1c2a0e97")
        || text_eq(fingerprint, "cef70648de")
        || text_eq(fingerprint, "34abf99d20")
        || text_eq(fingerprint, "e3a2181c14")
        || text_eq(fingerprint, "f773496775")
}

/// The SHA-1 digest of a text's UTF-8 bytes, as forty lower-case hexadecimal
/// digits.
pub uninterp spec fn sha1_hex(text: Seq<char>) -> Seq<char>;

/// Trusted: `sha1_smol::Sha1::update` on a fresh hasher, and the text of the
/// digest. The result is a function of the input alone and is named
/// `sha1_hex`; it has forty characters, eight for each of the five words of
/// the state.
#[verifier::external_body]
fn sha1_hex_digest(text: &str) -> (r: String)
    ensures
        r@ == sha1_hex(text@),
        r@.len() == 40,
{
    let mut hasher = sha1_smol::Sha1::new();
    hasher.update(text.as_bytes());
    hasher.digest().to_string()
}

/// Length of a fingerprint, in characters.
pub const FINGERPRINT_LEN: usize = 10;

/// The fingerprint of a table definition: the start of its digest.
pub open spec fn fingerprint_of(definition: Seq<char>) -> Seq<char> {
    sha1_hex(definition).subrange(0, FINGERPRINT_LEN as int)
}

/// Computes the fingerprint of a table definition.
pub fn schema_fingerprint(definition: &str) -> (r: String)
    ensures
        r@ == fingerprint_of(definition@),
        r@.len() == FINGERPRINT_LEN,
{
    let hex = sha1_hex_digest(definition);
    String::from_str(hex.as_str().substring_char(0, FINGERPRINT_LEN))
}

/// The warning about a fingerprint that is not among the known ones.
pub open spec fn unknown_schema_warning(fingerprint: Seq<char>) -> Seq<char> {
    "Warning: Unknown TCC database schema (digest: "@ + fingerprint
        + "). Proceeding anyway — results may vary."@
}

/// What the compatibility check says of a fingerprint: nothing for a known
/// one, a warning for any other.
pub open spec fn warning_for(fingerprint: Seq<char>) -> Option<Seq<char>> {
    if is_known_fingerprint(fingerprint) {
        None
    } else {
        Some(unknown_schema_warning(fingerprint))
    }
}

/// The view of an optional string.
pub open spec fn opt_view(o: Option<String>) -> Option<Seq<char>> {
    match o {
        Some(s) => Some(s@),
        None => None,
    }
}

/// Judges a fingerprint: a known one passes in silence, any other passes
/// with a warning that names it.
pub fn schema_warning(fingerprint: &str) -> (r: Option<String>)
    ensures
        opt_view(r) == warning_for(fingerprint@),
{
    if is_known_digest(fingerprint) {
        None
    } else {
        let mut warning = String::from_str("Warning: Unknown TCC database schema (digest: ");
        warning.append(fingerprint);
        warning.append("). Proceeding anyway — results may vary.");
        Some(warning)
    }
}

/// The failure for a store whose table definition cannot be read.
pub open spec fn schema_unreadable() -> ErrorModel {
    ErrorModel::SchemaInvalid(
        "Could not read TCC database schema. The access table may not exist."@,
    )
}

/// What the compatibility check returns for a table definition, if one
/// could be read.
pub open spec fn schema_verdict_of(definition: Option<Seq<char>>, r: Result<
    Option<String>,
    TccError,
>) -> bool {
    match definition {
        Some(d) => r matches Ok(w) && opt_view(w) == warning_for(fingerprint_of(d)),
        None => r matches Err(e) && e@ == schema_unreadable(),
    }
}

/// Judges the table definition of a store before a write. Without a
/// definition the write is refused; with one it may go on, with a warning
/// when the definition's fingerprint is not among the known ones.
pub fn schema_verdict(definition: Option<String>) -> (r: Result<Option<String>, TccError>)
    ensures
        schema_verdict_of(opt_view(definition), r),
{
    match definition {
        Some(d) => {
            let fingerprint = schema_fingerprint(d.as_str());
            Ok(schema_warning(fingerprint.as_str()))
        },
        None => Err(
            TccError::SchemaInvalid(
                String::from_str(
                    "Could not read TCC database schema. The access table may not exist.",
                ),
            ),
        ),
    }
}

} // verus!
