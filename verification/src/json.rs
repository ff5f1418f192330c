//! The machine-readable form of results: JSON texts, built by hand.

use vstd::prelude::*;
use vstd::string::*;
use crate::catalog::{
    catalog_by_display, catalog_display, catalog_key, display_at, indices, is_catalog_order,
    key_at, CATALOG_LEN,
};
use crate::entry::{EntryModel, TccEntry};
use crate::entry::models;
use crate::render::{auth_value_display, compact_client, compact_of, status_text};
use crate::text::{decimal, integer_text, push_char, push_decimal, texts};

verus! {

/// The character of a hexadecimal digit, in lower case.
pub open spec fn hex_digit_char(d: int) -> char {
    if d == 0 {
        '0'
    } else if d == 1 {
        '1'
    } else if d == 2 {
        '2'
    } else if d == 3 {
        '3'
    } else if d == 4 {
        '4'
    } else if d == 5 {
        '5'
    } else if d == 6 {
        '6'
    } else if d == 7 {
        '7'
    } else if d == 8 {
        '8'
    } else if d == 9 {
        '9'
    } else if d == 10 {
        'a'
    } else if d == 11 {
        'b'
    } else if d == 12 {
        'c'
    } else if d == 13 {
        'd'
    } else if d == 14 {
        'e'
    } else {
        'f'
    }
}

/// The character is a control character: below the space, or from the
/// delete character to the end of the second control block.
pub open spec fn is_control_char(c: char) -> bool {
    (c as u32) < 0x20 || (0x7f <= (c as u32) && (c as u32) <= 0x9f)
}

/// How one character stands inside a JSON string: the backslash, the quote
/// and the common control characters by their short escapes, any other
/// control character by its code in four hexadecimal digits, anything else
/// as itself.
pub open spec fn escaped_char(c: char) -> Seq<char> {
    if c == '\\' {
        seq!['\\', '\\']
    } else if c == '"' {
        seq!['\\', '"']
    } else if c == '\n' {
        seq!['\\', 'n']
    } else if c == '\r' {
        seq!['\\', 'r']
    } else if c == '\t' {
        seq!['\\', 't']
    } else if c == '\u{08}' {
        seq!['\\', 'b']
    } else if c == '\u{0C}' {
        seq!['\\', 'f']
    } else if is_control_char(c) {
        seq![
            '\\',
            'u',
            '0',
            '0',
            hex_digit_char((c as u32 / 16) as int),
            hex_digit_char((c as u32 % 16) as int),
        ]
    } else {
        seq![c]
    }
}

/// A text with each character as it stands inside a JSON string.
pub open spec fn escaped(s: Seq<char>) -> Seq<char>
    decreases s.len(),
{
    if s.len() == 0 {
        Seq::empty()
    } else {
        escaped(s.drop_last()) + escaped_char(s.last())
    }
}

/// A text as a JSON string: escaped, between quotes.
pub open spec fn quoted(s: Seq<char>) -> Seq<char> {
    seq!['"'] + escaped(s) + seq!['"']
}

/// The character of the hexadecimal digit `d`.
fn hex_digit(d: u32) -> (r: char)
    requires
        d < 16,
    ensures
        r == hex_digit_char(d as int),
{
    match d {
        0 => '0',
        1 => '1',
        2 => '2',
        3 => '3',
        4 => '4',
        5 => '5',
        6 => '6',
        7 => '7',
        8 => '8',
        9 => '9',
        10 => 'a',
        11 => 'b',
        12 => 'c',
        13 => 'd',
        14 => 'e',
        _ => 'f',
    }
}

/// Appends one character, as it stands inside a JSON string.
fn push_escaped_char(out: &mut String, c: char)
    ensures
        final(out)@ == old(out)@ + escaped_char(c),
{
    let code = c as u32;
    if c == '\\' {
        push_char(out, '\\');
        push_char(out, '\\');
    } else if c == '"' {
        push_char(out, '\\');
        push_char(out, '"');
    } else if c == '\n' {
        push_char(out, '\\');
        push_char(out, 'n');
    } else if c == '\r' {
        push_char(out, '\\');
        push_char(out, 'r');
    } else if c == '\t' {
        push_char(out, '\\');
        push_char(out, 't');
    } else if c == '\u{08}' {
        push_char(out, '\\');
        push_char(out, 'b');
    } else if c == '\u{0C}' {
        push_char(out, '\\');
        push_char(out, 'f');
    } else if code < 0x20 || (0x7f <= code && code <= 0x9f) {
        push_char(out, '\\');
        push_char(out, 'u');
        push_char(out, '0');
        push_char(out, '0');
        push_char(out, hex_digit(code / 16));
        push_char(out, hex_digit(code % 16));
    } else {
        push_char(out, c);
    }
    assert(out@ =~= old(out)@ + escaped_char(c));
}

/// Appends a text, escaped for a JSON string.
fn push_escaped(out: &mut String, input: &str)
    ensures
        final(out)@ == old(out)@ + escaped(input@),
{
    let n = input.unicode_len();
    let mut i: usize = 0;
    proof {
        assert(input@.take(0) =~= Seq::<char>::empty());
        assert(out@ =~= old(out)@ + escaped(input@.take(0)));
    }
    while i < n
        invariant
            i <= n,
            n == input@.len(),
            out@ == old(out)@ + escaped(input@.take(i as int)),
        decreases n - i,
    {
        let c = input.get_char(i);
        proof {
            let next = input@.take(i as int + 1);
            assert(next.drop_last() =~= input@.take(i as int));
            assert(next.last() == c);
        }
        let ghost before = out@;
        push_escaped_char(out, c);
        proof {
            assert(out@ =~= old(out)@ + escaped(input@.take(i as int + 1)));
        }
        i += 1;
    }
    proof {
        assert(input@.take(n as int) =~= input@);
    }
}

/// Escapes a text for use inside a JSON string.
pub fn json_escape(input: &str) -> (r: String)
    ensures
        r@ == escaped(input@),
{
    let mut out = String::new();
    push_escaped(&mut out, input);
    assert(out@ =~= escaped(input@));
    out
}

/// Appends a text as a JSON string.
fn push_quoted(out: &mut String, value: &str)
    ensures
        final(out)@ == old(out)@ + quoted(value@),
{
    push_char(out, '"');
    push_escaped(out, value);
    push_char(out, '"');
    assert(out@ =~= old(out)@ + quoted(value@));
}

/// A text as a JSON string.
pub fn json_string(value: &str) -> (r: String)
    ensures
        r@ == quoted(value@),
{
    let mut out = String::new();
    push_quoted(&mut out, value);
    assert(out@ =~= quoted(value@));
    out
}

/// The envelope of a success: the command and its data.
pub open spec fn success_envelope(command: Seq<char>, data: Seq<char>) -> Seq<char> {
    "{\"ok\":true,\"command\":"@ + quoted(command) + ",\"data\":"@ + data + ",\"error\":null}"@
}

/// The envelope of a failure: the command, and the failure's kind and text.
pub open spec fn error_envelope(command: Seq<char>, kind: Seq<char>, message: Seq<char>) -> Seq<
    char,
> {
    "{\"ok\":false,\"command\":"@ + quoted(command) + ",\"data\":null,\"error\":{\"kind\":"@
        + quoted(kind) + ",\"message\":"@ + quoted(message) + "}}"@
}

/// The JSON envelope of a command that succeeded, around its data, which is
/// JSON already.
pub fn json_success(command: &str, data_json: &str) -> (r: String)
    ensures
        r@ == success_envelope(command@, data_json@),
{
    let mut out = String::from_str("{\"ok\":true,\"command\":");
    push_quoted(&mut out, command);
    out.append(",\"data\":");
    out.append(data_json);
    out.append(",\"error\":null}");
    out
}

/// The JSON envelope of a command that failed.
pub fn json_error(command: &str, kind: &str, message: &str) -> (r: String)
    ensures
        r@ == error_envelope(command@, kind@, message@),
{
    let mut out = String::from_str("{\"ok\":false,\"command\":");
    push_quoted(&mut out, command);
    out.append(",\"data\":null,\"error\":{\"kind\":");
    push_quoted(&mut out, kind);
    out.append(",\"message\":");
    push_quoted(&mut out, message);
    out.append("}}");
    out
}

/// The data of a confirmation.
pub open spec fn message_data(message: Seq<char>) -> Seq<char> {
    "{\"message\":"@ + quoted(message) + "}"@
}

/// The JSON data of a command that answers with one message.
pub fn json_message_data(message: &str) -> (r: String)
    ensures
        r@ == message_data(message@),
{
    let mut out = String::from_str("{\"message\":");
    push_quoted(&mut out, message);
    out.append("}");
    out
}

/// The items of a JSON array: `items` mapped by `quoted`, with commas
/// between them.
pub open spec fn quoted_items(items: Seq<Seq<char>>) -> Seq<char>
    decreases items.len(),
{
    if items.len() == 0 {
        Seq::empty()
    } else if items.len() == 1 {
        quoted(items[0])
    } else {
        quoted_items(items.drop_last()) + ","@ + quoted(items.last())
    }
}

/// The data of the diagnostic report.
pub open spec fn info_data(lines: Seq<Seq<char>>) -> Seq<char> {
    "{\"lines\":["@ + quoted_items(lines) + "]}"@
}

/// The JSON data of the diagnostic report: its lines, as strings.
pub fn json_info_data(lines: &Vec<String>) -> (r: String)
    ensures
        r@ == info_data(texts(lines@)),
{
    let mut out = String::from_str("{\"lines\":[");
    let ghost start = out@;
    let ghost all = texts(lines@);
    let mut i: usize = 0;
    proof {
        assert(all.take(0) =~= Seq::<Seq<char>>::empty());
        assert(out@ =~= start + quoted_items(all.take(0)));
    }
    while i < lines.len()
        invariant
            i <= lines@.len(),
            all == texts(lines@),
            out@ == start + quoted_items(all.take(i as int)),
        decreases lines@.len() - i,
    {
        proof {
            let next = all.take(i as int + 1);
            assert(next.drop_last() =~= all.take(i as int));
            assert(next.last() == lines@[i as int]@);
        }
        if i > 0 {
            out.append(",");
        }
        push_quoted(&mut out, lines[i].as_str());
        proof {
            assert(out@ =~= start + quoted_items(all.take(i as int + 1)));
        }
        i += 1;
    }
    proof {
        assert(all.take(i as int) =~= all);
    }
    out.append("]}");
    out
}

/// The word for the store an entry came from.
pub open spec fn source_word(is_system: bool) -> Seq<char> {
    if is_system {
        "system"@
    } else {
        "user"@
    }
}

/// One entry as a JSON object. In compact form a client that is a path is
/// cut down to its file name.
pub open spec fn entry_object(e: EntryModel, compact: bool) -> Seq<char> {
    "{\"service\":"@ + quoted(e.service_display) + ",\"service_raw\":"@ + quoted(e.service_raw)
        + ",\"client\":"@ + quoted(
        if compact {
            compact_of(e.client)
        } else {
            e.client
        },
    ) + ",\"status\":"@ + quoted(status_text(e.auth_value)) + ",\"auth_value\":"@ + decimal(
        e.auth_value,
    ) + ",\"source\":"@ + quoted(source_word(e.is_system)) + ",\"last_modified\":"@ + quoted(
        e.last_modified,
    ) + "}"@
}

/// The objects of the entries, with commas between them.
pub open spec fn entry_objects(entries: Seq<EntryModel>, compact: bool) -> Seq<char>
    decreases entries.len(),
{
    if entries.len() == 0 {
        Seq::empty()
    } else if entries.len() == 1 {
        entry_object(entries[0], compact)
    } else {
        entry_objects(entries.drop_last(), compact) + ","@ + entry_object(entries.last(), compact)
    }
}

/// The data of a listing: the number of entries, and the entries.
pub open spec fn list_data(entries: Seq<EntryModel>, compact: bool) -> Seq<char> {
    "{\"count\":"@ + decimal(entries.len() as int) + ",\"entries\":["@ + entry_objects(
        entries,
        compact,
    ) + "]}"@
}

/// Appends `text` to what was appended to `base` so far.
fn add_text(out: &mut String, text: &str, Ghost(base): Ghost<Seq<char>>, Ghost(acc): Ghost<Seq<char>>)
    requires
        old(out)@ == base + acc,
    ensures
        final(out)@ == base + (acc + text@),
{
    out.append(text);
    assert(out@ =~= base + (acc + text@));
}

/// Appends `value` as a JSON string to what was appended to `base` so far.
fn add_quoted(
    out: &mut String,
    value: &str,
    Ghost(base): Ghost<Seq<char>>,
    Ghost(acc): Ghost<Seq<char>>,
)
    requires
        old(out)@ == base + acc,
    ensures
        final(out)@ == base + (acc + quoted(value@)),
{
    push_quoted(out, value);
    assert(out@ =~= base + (acc + quoted(value@)));
}

/// Appends one entry as a JSON object.
fn push_entry_object(out: &mut String, entry: &TccEntry, compact: bool)
    ensures
        final(out)@ == old(out)@ + entry_object(entry@, compact),
{
    let ghost base = out@;
    let ghost mut acc = Seq::<char>::empty();
    assert(out@ =~= base + acc);
    add_text(out, "{\"service\":", Ghost(base), Ghost(acc));
    proof {
        acc = acc + "{\"service\":"@;
        assert(acc =~= "{\"service\":"@);
    }
    add_quoted(out, entry.service_display.as_str(), Ghost(base), Ghost(acc));
    proof {
        acc = acc + quoted(entry@.service_display);
    }
    add_text(out, ",\"service_raw\":", Ghost(base), Ghost(acc));
    proof {
        acc = acc + ",\"service_raw\":"@;
    }
    add_quoted(out, entry.service_raw.as_str(), Ghost(base), Ghost(acc));
    proof {
        acc = acc + quoted(entry@.service_raw);
    }
    add_text(out, ",\"client\":", Ghost(base), Ghost(acc));
    proof {
        acc = acc + ",\"client\":"@;
    }
    if compact {
        add_quoted(out, compact_client(entry.client.as_str()).as_str(), Ghost(base), Ghost(acc));
    } else {
        add_quoted(out, entry.client.as_str(), Ghost(base), Ghost(acc));
    }
    proof {
        acc = acc + quoted(
            if compact {
                compact_of(entry@.client)
            } else {
                entry@.client
            },
        );
    }
    add_text(out, ",\"status\":", Ghost(base), Ghost(acc));
    proof {
        acc = acc + ",\"status\":"@;
    }
    add_quoted(out, auth_value_display(entry.auth_value).as_str(), Ghost(base), Ghost(acc));
    proof {
        acc = acc + quoted(status_text(entry@.auth_value));
    }
    add_text(out, ",\"auth_value\":", Ghost(base), Ghost(acc));
    proof {
        acc = acc + ",\"auth_value\":"@;
    }
    add_text(out, integer_text(entry.auth_value as i64).as_str(), Ghost(base), Ghost(acc));
    proof {
        acc = acc + decimal(entry@.auth_value);
    }
    add_text(out, ",\"source\":", Ghost(base), Ghost(acc));
    proof {
        acc = acc + ",\"source\":"@;
    }
    add_quoted(
        out,
        if entry.is_system {
            "system"
        } else {
            "user"
        },
        Ghost(base),
        Ghost(acc),
    );
    proof {
        acc = acc + quoted(source_word(entry@.is_system));
    }
    add_text(out, ",\"last_modified\":", Ghost(base), Ghost(acc));
    proof {
        acc = acc + ",\"last_modified\":"@;
    }
    add_quoted(out, entry.last_modified.as_str(), Ghost(base), Ghost(acc));
    proof {
        acc = acc + quoted(entry@.last_modified);
    }
    add_text(out, "}", Ghost(base), Ghost(acc));
    proof {
        acc = acc + "}"@;
        assert(acc == entry_object(entry@, compact));
    }
}

/// The JSON data of a listing.
pub fn json_list_data(entries: &Vec<TccEntry>, compact: bool) -> (r: String)
    ensures
        r@ == list_data(models(entries@), compact),
{
    let mut out = String::from_str("{\"count\":");
    push_decimal(&mut out, entries.len() as u64);
    out.append(",\"entries\":[");
    let ghost start = out@;
    let ghost all = models(entries@);
    let mut i: usize = 0;
    proof {
        assert(all.take(0) =~= Seq::<EntryModel>::empty());
        assert(out@ =~= start + entry_objects(all.take(0), compact));
    }
    while i < entries.len()
        invariant
            i <= entries@.len(),
            all == models(entries@),
            out@ == start + entry_objects(all.take(i as int), compact),
        decreases entries@.len() - i,
    {
        proof {
            let next = all.take(i as int + 1);
            assert(next.drop_last() =~= all.take(i as int));
            assert(next.last() == entries@[i as int]@);
        }
        if i > 0 {
            out.append(",");
        }
        push_entry_object(&mut out, &entries[i], compact);
        proof {
            assert(out@ =~= start + entry_objects(all.take(i as int + 1), compact));
        }
        i += 1;
    }
    proof {
        assert(all.take(i as int) =~= all);
    }
    out.append("]}");
    out
}

/// One catalog entry as a JSON object.
pub open spec fn service_object(i: int) -> Seq<char> {
    "{\"internal_name\":"@ + quoted(key_at(i)) + ",\"description\":"@ + quoted(display_at(i))
        + "}"@
}

/// The objects of the catalog entries at the given indices, with commas
/// between them.
pub open spec fn service_objects(order: Seq<int>) -> Seq<char>
    decreases order.len(),
{
    if order.len() == 0 {
        Seq::empty()
    } else if order.len() == 1 {
        service_object(order[0])
    } else {
        service_objects(order.drop_last()) + ","@ + service_object(order.last())
    }
}

/// The data of the list of services, in the given order.
pub open spec fn services_data(order: Seq<int>) -> Seq<char> {
    "{\"services\":["@ + service_objects(order) + "]}"@
}

/// The JSON data of the catalog entries at the given indices, in their
/// order. An index that names no entry is passed over.
pub fn json_services_in(order: &Vec<usize>) -> (r: String)
    ensures
        (forall|k: int| 0 <= k < order@.len() ==> #[trigger] order@[k] < CATALOG_LEN)
            ==> r@ == services_data(indices(order@)),
{
    let mut out = String::from_str("{\"services\":[");
    let ghost start = out@;
    let ghost all = indices(order@);
    let ghost valid = forall|k: int| 0 <= k < order@.len() ==> #[trigger] order@[k] < CATALOG_LEN;
    let mut i: usize = 0;
    let mut first = true;
    proof {
        assert(all.take(0) =~= Seq::<int>::empty());
        assert(out@ =~= start + service_objects(all.take(0)));
    }
    while i < order.len()
        invariant
            i <= order@.len(),
            all == indices(order@),
            valid == (forall|k: int| 0 <= k < order@.len() ==> #[trigger] order@[k] < CATALOG_LEN),
            valid ==> first == (i == 0),
            valid ==> out@ == start + service_objects(all.take(i as int)),
        decreases order@.len() - i,
    {
        let idx = order[i];
        if idx < CATALOG_LEN {
            proof {
                let next = all.take(i as int + 1);
                assert(next.drop_last() =~= all.take(i as int));
                assert(next.last() == idx as int);
            }
            if !first {
                out.append(",");
            }
            first = false;
            out.append("{\"internal_name\":");
            push_quoted(&mut out, catalog_key(idx));
            out.append(",\"description\":");
            push_quoted(&mut out, catalog_display(idx));
            out.append("}");
            proof {
                if valid {
                    assert(out@ =~= start + service_objects(all.take(i as int + 1)));
                }
            }
        }
        i += 1;
    }
    proof {
        assert(all.take(i as int) =~= all);
    }
    out.append("]}");
    out
}

/// The JSON data of the list of services: every catalog entry, ordered by
/// display name.
pub fn json_services_data() -> (r: String)
    ensures
        exists|order: Seq<int>| is_catalog_order(order) && r@ == #[trigger] services_data(order),
{
    let order = catalog_by_display();
    let r = json_services_in(&order);
    proof {
        assert(is_catalog_order(indices(order@)));
        assert forall|k: int| 0 <= k < order@.len() implies #[trigger] order@[k] < CATALOG_LEN by {
            assert(indices(order@)[k] == order@[k] as int);
        }
        assert(r@ == services_data(indices(order@)));
    }
    r
}

} // verus!
