//! The human-readable table of a listing: column widths, padding, and the
//! lines of the table.
//!
//! The width of a column is the largest length in bytes of its cells, and a
//! cell is padded with spaces up to that many characters. The two measures
//! agree on plain ASCII, which is what service names and statuses are.

use vstd::prelude::*;
use vstd::string::*;
use vstd::utf8::encode_utf8;
use crate::entry::{models, EntryModel, TccEntry};
use crate::json::source_word;
use crate::render::{auth_value_display, compact_client, compact_of, status_text};
use crate::text::{decimal, push_char, push_decimal, text_eq, texts};

verus! {

/// The length of a text in bytes.
pub open spec fn byte_len(s: Seq<char>) -> nat {
    encode_utf8(s).len()
}

/// `n` times the character `c`.
pub open spec fn repeated(c: char, n: nat) -> Seq<char> {
    Seq::new(n, |i: int| c)
}

/// `s`, followed by spaces up to `width` characters.
pub open spec fn padded(s: Seq<char>, width: nat) -> Seq<char> {
    if s.len() >= width {
        s
    } else {
        s + repeated(' ', (width - s.len()) as nat)
    }
}

/// The widths of the five columns.
#[derive(Clone, Copy, Debug, PartialEq, Eq, Structural)]
pub struct Widths {
    pub service: usize,
    pub client: usize,
    pub status: usize,
    pub source: usize,
    pub modified: usize,
}

/// The client of an entry as the table shows it.
pub open spec fn shown_client(e: EntryModel, compact: bool) -> Seq<char> {
    if compact {
        compact_of(e.client)
    } else {
        e.client
    }
}

/// The largest of `floor` and the lengths in bytes of the first `n` cells
/// of a column, where `cell` gives the cell of an entry.
pub open spec fn widest(
    entries: Seq<EntryModel>,
    cell: spec_fn(EntryModel) -> Seq<char>,
    floor: nat,
    n: int,
) -> nat
    decreases n,
{
    if n <= 0 {
        floor
    } else {
        let rest = widest(entries, cell, floor, n - 1);
        if byte_len(cell(entries[n - 1])) > rest {
            byte_len(cell(entries[n - 1]))
        } else {
            rest
        }
    }
}

/// The widths of the columns for a listing: each as wide as its heading, and
/// as its widest cell.
pub open spec fn widths_fit(entries: Seq<EntryModel>, compact: bool, w: Widths) -> bool {
    let n = entries.len() as int;
    &&& w.service == widest(entries, |e: EntryModel| e.service_display, 7, n)
    &&& w.client == widest(entries, |e: EntryModel| shown_client(e, compact), 6, n)
    &&& w.status == widest(entries, |e: EntryModel| status_text(e.auth_value), 6, n)
    &&& w.source == 6
    &&& w.modified == widest(entries, |e: EntryModel| e.last_modified, 13, n)
}

/// The line of the headings.
pub open spec fn header_of(w: Widths) -> Seq<char> {
    padded("SERVICE"@, w.service as nat) + "  "@ + padded("CLIENT"@, w.client as nat) + "  "@
        + padded("STATUS"@, w.status as nat) + "  "@ + padded("SOURCE"@, w.source as nat) + "  "@
        + "LAST MODIFIED"@
}

/// The rule below the headings.
pub open spec fn rule_of(w: Widths) -> Seq<char> {
    repeated('─', w.service as nat) + "  "@ + repeated('─', w.client as nat) + "  "@ + repeated(
        '─',
        w.status as nat,
    ) + "  "@ + repeated('─', w.source as nat) + "  "@ + repeated('─', w.modified as nat)
}

/// The client cell of a row: a ditto mark where the row above shows the
/// same client.
pub open spec fn client_cell_of(above: Option<Seq<char>>, client: Seq<char>) -> Seq<char> {
    if above == Some(client) {
        seq!['″']
    } else {
        client
    }
}

/// The status cell of a row: the status as painted, and the spaces that the
/// plain status lacks to fill the column.
pub open spec fn status_cell_of(painted: Seq<char>, plain: Seq<char>, width: nat) -> Seq<char> {
    if byte_len(plain) >= width {
        painted
    } else {
        painted + repeated(' ', (width - byte_len(plain)) as nat)
    }
}

/// The painted status of the entry at index `i`: the one given, or the plain
/// status where none is given.
pub open spec fn painted_at(painted: Seq<Seq<char>>, entries: Seq<EntryModel>, i: int) -> Seq<
    char,
> {
    if i < painted.len() {
        painted[i]
    } else {
        status_text(entries[i].auth_value)
    }
}

/// The row of the entry at index `i`.
pub open spec fn row_of(
    entries: Seq<EntryModel>,
    compact: bool,
    painted: Seq<Seq<char>>,
    w: Widths,
    i: int,
) -> Seq<char> {
    let e = entries[i];
    let above = if i > 0 {
        Some(shown_client(entries[i - 1], compact))
    } else {
        None
    };
    padded(e.service_display, w.service as nat) + "  "@ + padded(
        client_cell_of(above, shown_client(e, compact)),
        w.client as nat,
    ) + "  "@ + status_cell_of(
        painted_at(painted, entries, i),
        status_text(e.auth_value),
        w.status as nat,
    ) + "  "@ + padded(source_word(e.is_system), w.source as nat) + "  "@ + e.last_modified
}

/// The line that closes the table.
pub open spec fn total_of(n: nat) -> Seq<char> {
    decimal(n as int) + " entries total"@
}

/// `lines` is the table of a listing: for no entries the note alone; else
/// the headings, the rule, a row for each entry, an empty line and the
/// total.
pub open spec fn is_table_of(
    lines: Seq<Seq<char>>,
    entries: Seq<EntryModel>,
    compact: bool,
    painted: Seq<Seq<char>>,
    note: Seq<char>,
) -> bool {
    if entries.len() == 0 {
        lines == seq![note]
    } else {
        exists|w: Widths|
            {
                &&& #[trigger] widths_fit(entries, compact, w)
                &&& lines.len() == entries.len() + 4
                &&& lines[0] == header_of(w)
                &&& lines[1] == rule_of(w)
                &&& forall|i: int|
                    0 <= i < entries.len() ==> #[trigger] lines[i + 2] == row_of(
                        entries,
                        compact,
                        painted,
                        w,
                        i,
                    )
                &&& lines[entries.len() as int + 2] == Seq::<char>::empty()
                &&& lines[entries.len() as int + 3] == total_of(entries.len())
            }
    }
}

/// Appends `n` times the character `c`.
fn push_repeated(out: &mut String, c: char, n: usize)
    ensures
        final(out)@ == old(out)@ + repeated(c, n as nat),
{
    let mut i: usize = 0;
    assert(out@ =~= old(out)@ + repeated(c, 0));
    while i < n
        invariant
            i <= n,
            out@ == old(out)@ + repeated(c, i as nat),
        decreases n - i,
    {
        push_char(out, c);
        assert(out@ =~= old(out)@ + repeated(c, (i + 1) as nat));
        i += 1;
    }
}

/// Appends `s`, followed by spaces up to `width` characters.
fn push_padded(out: &mut String, s: &str, width: usize)
    ensures
        final(out)@ == old(out)@ + padded(s@, width as nat),
{
    let n = s.unicode_len();
    out.append(s);
    if n < width {
        push_repeated(out, ' ', width - n);
        assert(out@ =~= old(out)@ + padded(s@, width as nat));
    }
}

/// `s`, followed by spaces up to `width` characters.
pub fn pad_right(s: &str, width: usize) -> (r: String)
    ensures
        r@ == padded(s@, width as nat),
{
    let mut out = String::new();
    push_padded(&mut out, s, width);
    assert(out@ =~= padded(s@, width as nat));
    out
}

/// The clients of the entries as the table shows them.
pub fn shown_clients(entries: &Vec<TccEntry>, compact: bool) -> (r: Vec<String>)
    ensures
        r@.len() == entries@.len(),
        forall|i: int| 0 <= i < r@.len() ==> #[trigger] r@[i]@ == shown_client(entries@[i]@, compact),
{
    let mut clients: Vec<String> = Vec::new();
    let mut i: usize = 0;
    while i < entries.len()
        invariant
            i <= entries@.len(),
            clients@.len() == i,
            forall|k: int|
                0 <= k < i ==> #[trigger] clients@[k]@ == shown_client(entries@[k]@, compact),
        decreases entries@.len() - i,
    {
        if compact {
            clients.push(compact_client(entries[i].client.as_str()));
        } else {
            clients.push(entries[i].client.clone());
        }
        i += 1;
    }
    clients
}

/// The length of a text in bytes.
pub fn byte_length(s: &str) -> (r: usize)
    ensures
        r == byte_len(s@),
{
    s.as_bytes().len()
}

/// The larger of two widths.
fn larger(a: usize, b: usize) -> (r: usize)
    ensures
        r == if a > b {
            a
        } else {
            b
        },
{
    if a > b {
        a
    } else {
        b
    }
}

/// The widths of the columns for a listing: each as wide as its heading, and
/// as its widest cell.
pub fn column_widths(entries: &Vec<TccEntry>, compact: bool) -> (w: Widths)
    ensures
        widths_fit(models(entries@), compact, w),
{
    let clients = shown_clients(entries, compact);
    widths_for(entries, &clients, Ghost(compact))
}

/// The widths of the columns for a listing, given the clients as shown.
fn widths_for(entries: &Vec<TccEntry>, clients: &Vec<String>, Ghost(compact): Ghost<bool>) -> (w:
    Widths)
    requires
        clients@.len() == entries@.len(),
        forall|i: int|
            0 <= i < clients@.len() ==> #[trigger] clients@[i]@ == shown_client(
                entries@[i]@,
                compact,
            ),
    ensures
        widths_fit(models(entries@), compact, w),
{
    let mut w = Widths { service: 7, client: 6, status: 6, source: 6, modified: 13 };
    let ghost all = models(entries@);
    let ghost service = |e: EntryModel| e.service_display;
    let ghost client = |e: EntryModel| shown_client(e, compact);
    let ghost status = |e: EntryModel| status_text(e.auth_value);
    let ghost modified = |e: EntryModel| e.last_modified;
    let mut i: usize = 0;
    while i < entries.len()
        invariant
            i <= entries@.len(),
            all == models(entries@),
            clients@.len() == entries@.len(),
            forall|k: int|
                0 <= k < clients@.len() ==> #[trigger] clients@[k]@ == shown_client(
                    entries@[k]@,
                    compact,
                ),
            service == (|e: EntryModel| e.service_display),
            client == (|e: EntryModel| shown_client(e, compact)),
            status == (|e: EntryModel| status_text(e.auth_value)),
            modified == (|e: EntryModel| e.last_modified),
            w.service == widest(all, service, 7, i as int),
            w.client == widest(all, client, 6, i as int),
            w.status == widest(all, status, 6, i as int),
            w.source == 6,
            w.modified == widest(all, modified, 13, i as int),
        decreases entries@.len() - i,
    {
        let e = &entries[i];
        assert(all[i as int] == e@);
        w.service = larger(byte_length(e.service_display.as_str()), w.service);
        w.client = larger(byte_length(clients[i].as_str()), w.client);
        w.status = larger(byte_length(auth_value_display(e.auth_value).as_str()), w.status);
        w.modified = larger(byte_length(e.last_modified.as_str()), w.modified);
        i += 1;
    }
    w
}

/// The line of the headings.
pub fn header_line(w: &Widths) -> (r: String)
    ensures
        r@ == header_of(*w),
{
    let mut out = String::new();
    push_padded(&mut out, "SERVICE", w.service);
    out.append("  ");
    push_padded(&mut out, "CLIENT", w.client);
    out.append("  ");
    push_padded(&mut out, "STATUS", w.status);
    out.append("  ");
    push_padded(&mut out, "SOURCE", w.source);
    out.append("  ");
    out.append("LAST MODIFIED");
    assert(out@ =~= header_of(*w));
    out
}

/// The rule below the headings.
pub fn rule_line(w: &Widths) -> (r: String)
    ensures
        r@ == rule_of(*w),
{
    let mut out = String::new();
    push_repeated(&mut out, '─', w.service);
    out.append("  ");
    push_repeated(&mut out, '─', w.client);
    out.append("  ");
    push_repeated(&mut out, '─', w.status);
    out.append("  ");
    push_repeated(&mut out, '─', w.source);
    out.append("  ");
    push_repeated(&mut out, '─', w.modified);
    assert(out@ =~= rule_of(*w));
    out
}

/// The row of the entry at index `i`.
fn row_line(
    entries: &Vec<TccEntry>,
    clients: &Vec<String>,
    painted: &Vec<String>,
    w: &Widths,
    i: usize,
    Ghost(compact): Ghost<bool>,
) -> (r: String)
    requires
        i < entries@.len(),
        clients@.len() == entries@.len(),
        forall|k: int|
            0 <= k < clients@.len() ==> #[trigger] clients@[k]@ == shown_client(
                entries@[k]@,
                compact,
            ),
    ensures
        r@ == row_of(models(entries@), compact, texts(painted@), *w, i as int),
{
    let e = &entries[i];
    let ghost all = models(entries@);
    assert(all[i as int] == e@);
    let mut out = String::new();
    push_padded(&mut out, e.service_display.as_str(), w.service);
    out.append("  ");
    let ditto = i > 0 && text_eq(clients[i - 1].as_str(), clients[i].as_str());
    if ditto {
        proof {
            reveal_strlit("″");
            assert("″"@ =~= seq!['″']);
        }
        push_padded(&mut out, "″", w.client);
    } else {
        push_padded(&mut out, clients[i].as_str(), w.client);
    }
    out.append("  ");
    let plain = auth_value_display(e.auth_value);
    if i < painted.len() {
        out.append(painted[i].as_str());
    } else {
        out.append(plain.as_str());
    }
    let plain_len = byte_length(plain.as_str());
    if plain_len < w.status {
        push_repeated(&mut out, ' ', w.status - plain_len);
    }
    out.append("  ");
    push_padded(
        &mut out,
        if e.is_system {
            "system"
        } else {
            "user"
        },
        w.source,
    );
    out.append("  ");
    out.append(e.last_modified.as_str());
    proof {
        if i > 0 {
            assert(all[i as int - 1] == entries@[i as int - 1]@);
        }
        assert(out@ =~= row_of(all, compact, texts(painted@), *w, i as int));
    }
    out
}

/// The lines of the table of a listing.
///
/// `painted` holds the status of each entry as it is to be shown, index by
/// index; an entry without one shows its plain status. `note` is what is
/// said instead of a table when there are no entries.
pub fn table_with(entries: &Vec<TccEntry>, compact: bool, painted: &Vec<String>, note: &str) -> (r:
    Vec<String>)
    ensures
        is_table_of(texts(r@), models(entries@), compact, texts(painted@), note@),
{
    let mut lines: Vec<String> = Vec::new();
    if entries.len() == 0 {
        lines.push(String::from_str(note));
        assert(texts(lines@) =~= seq![note@]);
        return lines;
    }
    let clients = shown_clients(entries, compact);
    let w = widths_for(entries, &clients, Ghost(compact));
    lines.push(header_line(&w));
    lines.push(rule_line(&w));
    let mut i: usize = 0;
    while i < entries.len()
        invariant
            i <= entries@.len(),
            clients@.len() == entries@.len(),
            forall|k: int|
                0 <= k < clients@.len() ==> #[trigger] clients@[k]@ == shown_client(
                    entries@[k]@,
                    compact,
                ),
            lines@.len() == i + 2,
            lines@[0]@ == header_of(w),
            lines@[1]@ == rule_of(w),
            forall|k: int|
                0 <= k < i ==> #[trigger] lines@[k + 2]@ == row_of(
                    models(entries@),
                    compact,
                    texts(painted@),
                    w,
                    k,
                ),
        decreases entries@.len() - i,
    {
        lines.push(row_line(entries, &clients, painted, &w, i, Ghost(compact)));
        i += 1;
    }
    lines.push(String::new());
    let mut total = String::new();
    push_decimal(&mut total, entries.len() as u64);
    total.append(" entries total");
    lines.push(total);
    proof {
        let shown = texts(lines@);
        assert(total@ =~= total_of(entries@.len()));
        assert(widths_fit(models(entries@), compact, w));
        assert forall|k: int| 0 <= k < entries@.len() implies #[trigger] shown[k + 2] == row_of(
            models(entries@),
            compact,
            texts(painted@),
            w,
            k,
        ) by {
            assert(shown[k + 2] == lines@[k + 2]@);
        }
    }
    lines
}

/// Trusted: `colored::Colorize::red`, as text. Whether colour codes are
/// added depends on the terminal and the environment.
#[verifier::external_body]
fn red(text: &str) -> (r: String) {
    colored::Colorize::red(text).to_string()
}

/// Trusted: `colored::Colorize::green`, as text.
#[verifier::external_body]
fn green(text: &str) -> (r: String) {
    colored::Colorize::green(text).to_string()
}

/// Trusted: `colored::Colorize::yellow`, as text.
#[verifier::external_body]
fn yellow(text: &str) -> (r: String) {
    colored::Colorize::yellow(text).to_string()
}

/// Trusted: `colored::Colorize::dimmed`, as text.
#[verifier::external_body]
fn dimmed(text: &str) -> (r: String) {
    colored::Colorize::dimmed(text).to_string()
}

/// The status of an entry, painted by its meaning: denied red, granted
/// green, limited yellow, anything else plain.
fn paint_status(auth_value: i32) -> (r: String)
    ensures
        auth_value != 0 && auth_value != 2 && auth_value != 3 ==> r@ == status_text(
            auth_value as int,
        ),
{
    let plain = auth_value_display(auth_value);
    match auth_value {
        0 => red(plain.as_str()),
        2 => green(plain.as_str()),
        3 => yellow(plain.as_str()),
        _ => plain,
    }
}

/// The lines of the table of a listing, with the statuses painted for the
/// terminal: for no entries a note that none were found; else the headings,
/// a rule, a row for each entry, an empty line and the total.
pub fn table_lines(entries: &Vec<TccEntry>, compact: bool) -> (r: Vec<String>)
    ensures
        exists|painted: Seq<Seq<char>>, note: Seq<char>| #[trigger]
            is_table_of(texts(r@), models(entries@), compact, painted, note),
{
    let mut painted: Vec<String> = Vec::new();
    let mut i: usize = 0;
    while i < entries.len()
        invariant
            i <= entries@.len(),
        decreases entries@.len() - i,
    {
        painted.push(paint_status(entries[i].auth_value));
        i += 1;
    }
    let note = dimmed("No entries found.");
    let lines = table_with(entries, compact, &painted, note.as_str());
    proof {
        assert(is_table_of(texts(lines@), models(entries@), compact, texts(painted@), note@));
    }
    lines
}

} // verus!
