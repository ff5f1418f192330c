//! How the values of an entry are shown: status codes, clients and times.

use vstd::prelude::*;
use vstd::string::*;
use crate::text::{decimal, integer_text, is_path_like, push_integer, starts_with_slash};

verus! {

/// Seconds from the Unix epoch to the reference date of the store's own
/// epoch, 2001-01-01.
pub const EPOCH_OFFSET: i64 = 978_307_200;

/// Stored times below this value count from the store's own epoch, those at
/// or above it from the Unix epoch.
pub const UNIX_THRESHOLD: i64 = 1_000_000_000;

/// The text of a status code.
pub open spec fn status_text(value: int) -> Seq<char> {
    if value == 0 {
        "denied"@
    } else if value == 2 {
        "granted"@
    } else if value == 3 {
        "limited"@
    } else {
        "unknown("@ + decimal(value) + ")"@
    }
}

/// The text of a status code: `denied`, `granted`, `limited`, or `unknown(N)`
/// for any other value `N`.
pub fn auth_value_display(value: i32) -> (r: String)
    ensures
        r@ == status_text(value as int),
{
    match value {
        0 => String::from_str("denied"),
        2 => String::from_str("granted"),
        3 => String::from_str("limited"),
        v => {
            let mut out = String::from_str("unknown(");
            push_integer(&mut out, v as i64);
            out.append(")");
            out
        },
    }
}

/// Where the part of `path` that ends before index `end` begins: after the
/// last separator before `end`, or at the start of the path.
pub open spec fn part_start(path: Seq<char>, end: int) -> int
    decreases end,
{
    if end <= 0 || path[end - 1] == '/' {
        end
    } else {
        part_start(path, end - 1)
    }
}

/// The file name of the first `end` characters of a path.
pub open spec fn file_name_within(path: Seq<char>, end: int) -> Option<Seq<char>>
    decreases end,
{
    if end <= 0 {
        None
    } else if path[end - 1] == '/' {
        file_name_within(path, end - 1)
    } else {
        let part = path.subrange(part_start(path, end), end);
        if part == seq!['.'] {
            file_name_within(path, end - 1)
        } else if part == seq!['.', '.'] {
            None
        } else {
            Some(part)
        }
    }
}

/// The file name of a path: its last part, where parts are what stands
/// between separators. Separators at the end and parts that are a single dot
/// are passed over; a path that has no other part, or whose last part is
/// two dots, has no file name.
pub open spec fn file_name_of(path: Seq<char>) -> Option<Seq<char>> {
    file_name_within(path, path.len() as int)
}

/// The part that ends before `end` begins at `start`, when no separator
/// stands between them and one stands before `start`.
proof fn lemma_part_start(path: Seq<char>, start: int, end: int)
    requires
        0 <= start <= end <= path.len(),
        forall|k: int| start <= k < end ==> path[k] != '/',
        start == 0 || path[start - 1] == '/',
    ensures
        part_start(path, end) == start,
    decreases end - start,
{
    if start < end {
        lemma_part_start(path, start, end - 1);
    }
}

/// The file name of a path, where it has one.
pub fn file_name(path: &str) -> (r: Option<String>)
    ensures
        match r {
            Some(name) => file_name_of(path@) == Some(name@),
            None => file_name_of(path@).is_none(),
        },
{
    let n = path.unicode_len();
    let mut end: usize = n;
    while end > 0
        invariant
            end <= n,
            n == path@.len(),
            file_name_of(path@) == file_name_within(path@, end as int),
        decreases end,
    {
        if path.get_char(end - 1) == '/' {
            end -= 1;
        } else {
            let mut start: usize = end - 1;
            while start > 0 && path.get_char(start - 1) != '/'
                invariant
                    start < end <= n,
                    n == path@.len(),
                    forall|k: int| start <= k < end ==> path@[k] != '/',
                decreases start,
            {
                start -= 1;
            }
            proof {
                lemma_part_start(path@, start as int, end as int);
            }
            let ghost part = path@.subrange(start as int, end as int);
            let length = end - start;
            if length == 1 && path.get_char(start) == '.' {
                proof {
                    assert(part =~= seq!['.']);
                }
                end -= 1;
            } else if length == 2 && path.get_char(start) == '.' && path.get_char(start + 1)
                == '.' {
                proof {
                    assert(part =~= seq!['.', '.']);
                    assert(part != seq!['.']);
                }
                return None;
            } else {
                proof {
                    if part == seq!['.'] {
                        assert(part.len() == 1 && part[0] == '.');
                    }
                    if part == seq!['.', '.'] {
                        assert(part.len() == 2 && part[0] == '.' && part[1] == '.');
                    }
                }
                return Some(String::from_str(path.substring_char(start, end)));
            }
        }
    }
    None
}

/// The short form of a client: the file name of a path, where it has one;
/// anything else unchanged.
pub open spec fn compact_of(client: Seq<char>) -> Seq<char> {
    if is_path_like(client) {
        match file_name_of(client) {
            Some(name) => name,
            None => client,
        }
    } else {
        client
    }
}

/// Shortens a client that is a path to its file name. A bundle identifier, and
/// a path without a file name, are returned as they are.
pub fn compact_client(client: &str) -> (r: String)
    ensures
        r@ == compact_of(client@),
{
    if starts_with_slash(client) {
        match file_name(client) {
            Some(name) => name,
            None => String::from_str(client),
        }
    } else {
        String::from_str(client)
    }
}

/// The Unix time that a stored time stands for.
pub open spec fn unix_seconds_of(stored: int) -> int {
    if stored < UNIX_THRESHOLD {
        stored + EPOCH_OFFSET
    } else {
        stored
    }
}

/// The Unix time that a stored time stands for: values below the threshold
/// count from the store's own epoch.
pub fn unix_seconds(stored: i64) -> (r: i64)
    ensures
        r == unix_seconds_of(stored as int),
{
    if stored < UNIX_THRESHOLD {
        stored + EPOCH_OFFSET
    } else {
        stored
    }
}

/// The time in the store's own epoch that a Unix time stands for, kept
/// within the range of the type.
pub open spec fn store_seconds_of(unix: int) -> int {
    if unix - EPOCH_OFFSET < i64::MIN {
        i64::MIN as int
    } else {
        unix - EPOCH_OFFSET
    }
}

/// The time in the store's own epoch that a Unix time stands for.
pub fn store_seconds(unix: i64) -> (r: i64)
    ensures
        r == store_seconds_of(unix as int),
{
    if unix < i64::MIN + EPOCH_OFFSET {
        i64::MIN
    } else {
        unix - EPOCH_OFFSET
    }
}

/// The text of a stored time, given its calendar form where one exists.
pub open spec fn timestamp_text_of(stored: int, calendar: Option<Seq<char>>) -> Seq<char> {
    if stored == 0 {
        "N/A"@
    } else {
        match calendar {
            Some(c) => c,
            None => decimal(stored),
        }
    }
}

/// The text of a stored time: `N/A` for zero, else its calendar form, else,
/// where it has none, the stored number itself.
pub fn timestamp_text(stored: i64, calendar: Option<String>) -> (r: String)
    ensures
        r@ == timestamp_text_of(
            stored as int,
            match calendar {
                Some(c) => Some(c@),
                None => None,
            },
        ),
{
    if stored == 0 {
        String::from_str("N/A")
    } else {
        match calendar {
            Some(c) => c,
            None => integer_text(stored),
        }
    }
}

/// The calendar form, as `%Y-%m-%d %H:%M:%S`, of the instant `unix` seconds
/// after the Unix epoch in the zone `offset` seconds east of UTC; none where
/// the zone or the instant is out of the calendar's range.
pub uninterp spec fn calendar_text(unix: int, offset: int) -> Option<Seq<char>>;

/// The shape of a calendar form: counted from its end, two digits each for
/// second, minute, hour, day and month, with `:`, `:`, a space, `-` and `-`
/// before them, and a year of four characters or more in front.
pub open spec fn is_calendar_text(c: Seq<char>) -> bool {
    &&& c.len() >= 19
    &&& c[c.len() - 15] == '-'
    &&& c[c.len() - 12] == '-'
    &&& c[c.len() - 9] == ' '
    &&& c[c.len() - 6] == ':'
    &&& c[c.len() - 3] == ':'
}

/// The view of an optional zone offset.
pub open spec fn zone_view(zone: Option<i32>) -> Option<int> {
    match zone {
        Some(offset) => Some(offset as int),
        None => None,
    }
}

/// The text of a stored time on a machine whose zone, at that instant, is
/// `zone` seconds east of UTC; `None` stands for an instant that has no
/// zone there.
pub open spec fn rendered_at(stored: int, zone: Option<int>) -> Seq<char> {
    timestamp_text_of(
        stored,
        match zone {
            Some(offset) => calendar_text(unix_seconds_of(stored), offset),
            None => None,
        },
    )
}

/// `text` is the rendering of a stored time in some zone less than a day
/// from UTC, or in none.
pub open spec fn is_rendering_of(stored: int, text: Seq<char>) -> bool {
    exists|zone: Option<int>|
        text == #[trigger] rendered_at(stored, zone) && (zone matches Some(offset) ==> -86_400
            < offset < 86_400)
}

/// Trusted: `chrono::FixedOffset::east_opt`, `chrono::TimeZone::timestamp_opt`
/// on the zone it gives, and the formatting of the result as
/// `%Y-%m-%d %H:%M:%S`. The text is a function of the instant and the offset
/// alone and is named `calendar_text`; the format gives it the shape of
/// `is_calendar_text`. Nothing is returned for an offset of a day or more,
/// or an instant out of range.
#[verifier::external_body]
fn calendar_at(unix: i64, offset: i32) -> (r: Option<String>)
    ensures
        match r {
            Some(c) => calendar_text(unix as int, offset as int) == Some(c@) && is_calendar_text(
                c@,
            ),
            None => calendar_text(unix as int, offset as int).is_none(),
        },
{
    match chrono::FixedOffset::east_opt(offset) {
        Some(zone) => match chrono::TimeZone::timestamp_opt(&zone, unix, 0) {
            chrono::LocalResult::Single(at) => Some(at.format("%Y-%m-%d %H:%M:%S").to_string()),
            _ => None,
        },
        None => None,
    }
}

/// Trusted: `chrono::TimeZone::timestamp_opt` on `chrono::Local`, and the
/// offset from UTC of its result, in seconds; such an offset is less than a
/// day. Nothing is returned for an instant out of range. Which offset comes
/// depends on the machine's time zone. `chrono` unwraps the offset that the
/// zone data names; it returns wherever that offset is less than a day, as
/// it is in every zone in use.
#[verifier::external_body]
fn local_offset(unix: i64) -> (r: Option<i32>)
    ensures
        r matches Some(offset) ==> -86_400 < offset < 86_400,
{
    match chrono::TimeZone::timestamp_opt(&chrono::Local, unix, 0) {
        chrono::LocalResult::Single(at) => Some(at.offset().local_minus_utc()),
        _ => None,
    }
}

/// Renders a stored time for a zone `zone` seconds east of UTC: `N/A` for
/// zero; else the calendar form of the instant it stands for; else, where
/// there is none, the stored number.
pub fn render_timestamp(stored: i64, zone: Option<i32>) -> (r: String)
    ensures
        r@ == rendered_at(stored as int, zone_view(zone)),
        stored != 0 ==> r@ == decimal(stored as int) || is_calendar_text(r@),
{
    if stored == 0 {
        return String::from_str("N/A");
    }
    let calendar = match zone {
        Some(offset) => calendar_at(unix_seconds(stored), offset),
        None => None,
    };
    timestamp_text(stored, calendar)
}

/// Renders a stored time in local time.
///
/// Zero, which stands for "never", gives `N/A`. Any other time is shifted
/// to the Unix epoch where it is below the threshold, and rendered in the
/// machine's zone at that instant: as a calendar form, or, where the
/// instant has none, as the stored number.
pub fn format_timestamp(stored: i64) -> (r: String)
    ensures
        is_rendering_of(stored as int, r@),
        stored == 0 ==> r@ == "N/A"@,
        stored != 0 ==> r@ == decimal(stored as int) || is_calendar_text(r@),
{
    if stored == 0 {
        assert("N/A"@ == rendered_at(0, None));
        return String::from_str("N/A");
    }
    let zone = local_offset(unix_seconds(stored));
    let r = render_timestamp(stored, zone);
    assert(r@ == rendered_at(stored as int, zone_view(zone)));
    r
}

} // verus!
