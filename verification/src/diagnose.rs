//! Diagnostics: the lines that describe the machine and the two stores.

use vstd::prelude::*;
use vstd::string::*;
use crate::gate::{fingerprint_of, is_known_digest, is_known_fingerprint, opt_view, schema_fingerprint};
use crate::text::texts;

verus! {

/// What was found out about one store.
#[derive(Debug)]
pub struct StoreProbe {
    /// The file is there.
    pub exists: bool,
    /// It can be opened for reading.
    pub readable: bool,
    /// It can be opened for writing.
    pub writable: bool,
    /// The definition of its permission table, where it could be read.
    pub definition: Option<String>,
}

/// The mathematical content of a [`StoreProbe`].
pub struct ProbeModel {
    pub exists: bool,
    pub readable: bool,
    pub writable: bool,
    pub definition: Option<Seq<char>>,
}

impl View for StoreProbe {
    type V = ProbeModel;

    open spec fn view(&self) -> ProbeModel {
        ProbeModel {
            exists: self.exists,
            readable: self.readable,
            writable: self.writable,
            definition: opt_view(self.definition),
        }
    }
}

/// What a probe of one store can find together: a store that is not there
/// can be neither read nor written, and a table definition is only had from
/// a store that is there and can be read.
pub open spec fn is_coherent(probe: ProbeModel) -> bool {
    &&& !probe.exists ==> !probe.readable && !probe.writable
    &&& probe.definition.is_some() ==> probe.exists && probe.readable
}

/// `yes` or `no`.
pub open spec fn yes_no(b: bool) -> Seq<char> {
    if b {
        "yes"@
    } else {
        "no"@
    }
}

/// The line that reports a table definition's fingerprint and whether it is
/// a known one.
pub open spec fn digest_line(definition: Seq<char>) -> Seq<char> {
    "  Schema digest: "@ + fingerprint_of(definition) + " ("@ + (if is_known_fingerprint(
        fingerprint_of(definition),
    ) {
        "known"@
    } else {
        "UNKNOWN"@
    }) + ")"@
}

/// The lines that describe one store: its label and path; then, for a store
/// that exists, whether it can be read and written and, if it can be read
/// and has a table definition, the definition's fingerprint; for one that
/// does not exist, that it was not found; and an empty line.
pub open spec fn store_lines_of(label: Seq<char>, path: Seq<char>, probe: ProbeModel) -> Seq<
    Seq<char>,
> {
    let head = seq![label + ": "@ + path];
    let body = if probe.exists {
        let access = seq!["  Readable: "@ + yes_no(probe.readable), "  Writable: "@ + yes_no(
            probe.writable,
        )];
        if probe.readable && probe.definition.is_some() {
            access.push(digest_line(probe.definition.unwrap()))
        } else {
            access
        }
    } else {
        seq!["  Not found"@]
    };
    head + body + seq![Seq::<char>::empty()]
}

/// The lines that open the report: the platform's version, the state of its
/// integrity protection, and an empty line.
pub open spec fn machine_lines_of(version: Seq<char>, protection: Seq<char>) -> Seq<Seq<char>> {
    seq!["macOS version: "@ + version, "SIP status: "@ + protection, Seq::<char>::empty()]
}

/// A line made of a label and a value.
fn labelled(label: &str, value: &str) -> (r: String)
    ensures
        r@ == label@ + value@,
{
    let mut line = String::from_str(label);
    line.append(value);
    line
}

/// `yes` or `no`.
fn yes_no_word(b: bool) -> (r: &'static str)
    ensures
        r@ == yes_no(b),
{
    if b {
        "yes"
    } else {
        "no"
    }
}

/// Appends the lines that describe one store to `lines`.
pub fn push_store_lines(lines: &mut Vec<String>, label: &str, path: &str, probe: &StoreProbe)
    ensures
        texts(final(lines)@) == texts(old(lines)@) + store_lines_of(label@, path@, probe@),
{
    let ghost before = texts(lines@);
    let mut head = String::from_str(label);
    head.append(": ");
    head.append(path);
    lines.push(head);
    if probe.exists {
        lines.push(labelled("  Readable: ", yes_no_word(probe.readable)));
        lines.push(labelled("  Writable: ", yes_no_word(probe.writable)));
        if probe.readable {
            match &probe.definition {
                Some(definition) => {
                    let fingerprint = schema_fingerprint(definition.as_str());
                    let mut line = String::from_str("  Schema digest: ");
                    line.append(fingerprint.as_str());
                    line.append(" (");
                    line.append(
                        if is_known_digest(fingerprint.as_str()) {
                            "known"
                        } else {
                            "UNKNOWN"
                        },
                    );
                    line.append(")");
                    lines.push(line);
                },
                None => {},
            }
        }
    } else {
        lines.push(String::from_str("  Not found"));
    }
    lines.push(String::new());
    proof {
        assert(texts(lines@) =~= before + store_lines_of(label@, path@, probe@));
    }
}

/// The lines that open the report.
pub fn machine_lines(version: &str, protection: &str) -> (r: Vec<String>)
    ensures
        texts(r@) == machine_lines_of(version@, protection@),
{
    let mut lines: Vec<String> = Vec::new();
    lines.push(labelled("macOS version: ", version));
    lines.push(labelled("SIP status: ", protection));
    lines.push(String::new());
    proof {
        assert(texts(lines@) =~= machine_lines_of(version@, protection@));
    }
    lines
}

} // verus!
