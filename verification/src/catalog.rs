//! The service catalog: the fixed table that pairs each canonical service key
//! with its display name.
//!
//! The table is ordered; an index below [`CATALOG_LEN`] names one pairing.

use vstd::prelude::*;
use vstd::string::*;
use crate::text::{
    has_prefix, lemma_lex_total, lemma_lex_transitive, lex_lt, strip_text_prefix, text_eq,
    text_lt,
};

verus! {

/// Number of pairings in the catalog.
pub const CATALOG_LEN: usize = 31;

/// The prefix that every canonical key starts with, as characters.
pub open spec fn service_prefix() -> Seq<char> {
    "kTCCService"@
}

/// Canonical key of the pairing at index `i`.
pub open spec fn key_at(i: int) -> Seq<char> {
    if i == 0 {
        "kTCCServiceAccessibility"@
    } else if i == 1 {
        "kTCCServiceScreenCapture"@
    } else if i == 2 {
        "kTCCServiceSystemPolicyAllFiles"@
    } else if i == 3 {
        "kTCCServiceSystemPolicySysAdminFiles"@
    } else if i == 4 {
        "kTCCServiceSystemPolicyDesktopFolder"@
    } else if i == 5 {
        "kTCCServiceSystemPolicyDocumentsFolder"@
    } else if i == 6 {
        "kTCCServiceSystemPolicyDownloadsFolder"@
    } else if i == 7 {
        "kTCCServiceSystemPolicyNetworkVolumes"@
    } else if i == 8 {
        "kTCCServiceSystemPolicyRemovableVolumes"@
    } else if i == 9 {
        "kTCCServiceSystemPolicyDeveloperFiles"@
    } else if i == 10 {
        "kTCCServiceCamera"@
    } else if i == 11 {
        "kTCCServiceMicrophone"@
    } else if i == 12 {
        "kTCCServicePhotos"@
    } else if i == 13 {
        "kTCCServicePhotosAdd"@
    } else if i == 14 {
        "kTCCServiceCalendar"@
    } else if i == 15 {
        "kTCCServiceContacts"@
    } else if i == 16 {
        "kTCCServiceReminders"@
    } else if i == 17 {
        "kTCCServiceLocation"@
    } else if i == 18 {
        "kTCCServiceAddressBook"@
    } else if i == 19 {
        "kTCCServiceMediaLibrary"@
    } else if i == 20 {
        "kTCCServiceAppleEvents"@
    } else if i == 21 {
        "kTCCServiceListenEvent"@
    } else if i == 22 {
        "kTCCServicePostEvent"@
    } else if i == 23 {
        "kTCCServiceSpeechRecognition"@
    } else if i == 24 {
        "kTCCServiceBluetoothAlways"@
    } else if i == 25 {
        "kTCCServiceDeveloperTool"@
    } else if i == 26 {
        "kTCCServiceEndpointSecurityClient"@
    } else if i == 27 {
        "kTCCServiceFileProviderDomain"@
    } else if i == 28 {
        "kTCCServiceFileProviderPresence"@
    } else if i == 29 {
        "kTCCServiceFocusStatus"@
    } else {
        "kTCCServiceLiverpool"@
    }
}

/// Display name of the pairing at index `i`.
pub open spec fn display_at(i: int) -> Seq<char> {
    if i == 0 {
        "Accessibility"@
    } else if i == 1 {
        "Screen Recording"@
    } else if i == 2 {
        "Full Disk Access"@
    } else if i == 3 {
        "Administer Computer (SysAdmin)"@
    } else if i == 4 {
        "Desktop Folder"@
    } else if i == 5 {
        "Documents Folder"@
    } else if i == 6 {
        "Downloads Folder"@
    } else if i == 7 {
        "Network Volumes"@
    } else if i == 8 {
        "Removable Volumes"@
    } else if i == 9 {
        "Developer Files"@
    } else if i == 10 {
        "Camera"@
    } else if i == 11 {
        "Microphone"@
    } else if i == 12 {
        "Photos"@
    } else if i == 13 {
        "Photos (Add Only)"@
    } else if i == 14 {
        "Calendar"@
    } else if i == 15 {
        "Contacts"@
    } else if i == 16 {
        "Reminders"@
    } else if i == 17 {
        "Location"@
    } else if i == 18 {
        "Address Book"@
    } else if i == 19 {
        "Media Library"@
    } else if i == 20 {
        "Apple Events / Automation"@
    } else if i == 21 {
        "Input Monitoring"@
    } else if i == 22 {
        "Post Events"@
    } else if i == 23 {
        "Speech Recognition"@
    } else if i == 24 {
        "Bluetooth"@
    } else if i == 25 {
        "Developer Tool"@
    } else if i == 26 {
        "Endpoint Security"@
    } else if i == 27 {
        "File Provider"@
    } else if i == 28 {
        "File Provider Presence"@
    } else if i == 29 {
        "Focus Status"@
    } else {
        "User Data (Liverpool)"@
    }
}

/// `s` is one of the catalog's canonical keys.
pub open spec fn is_canonical(s: Seq<char>) -> bool {
    exists|i: int| 0 <= i < CATALOG_LEN && #[trigger] key_at(i) == s
}

/// `i` is the first index whose key is `s`.
pub open spec fn is_first_key_index(s: Seq<char>, i: int) -> bool {
    &&& 0 <= i < CATALOG_LEN
    &&& key_at(i) == s
    &&& forall|j: int| 0 <= j < i ==> #[trigger] key_at(j) != s
}

/// The first index whose key is `s`; meaningful when `is_canonical(s)`.
pub open spec fn key_index(s: Seq<char>) -> int {
    choose|i: int| is_first_key_index(s, i)
}

/// What a raw service key is shown as: its display name when the catalog
/// knows it, else the key without the service prefix, else the key itself.
pub open spec fn display_name_of(raw: Seq<char>) -> Seq<char> {
    if is_canonical(raw) {
        display_at(key_index(raw))
    } else if has_prefix(raw, service_prefix()) {
        raw.subrange(service_prefix().len() as int, raw.len() as int)
    } else {
        raw
    }
}

/// Canonical key of the pairing at index `i`.
pub fn catalog_key(i: usize) -> (r: &'static str)
    requires
        i < CATALOG_LEN,
    ensures
        r@ == key_at(i as int),
{
    match i {
        0 => "kTCCServiceAccessibility",
        1 => "kTCCServiceScreenCapture",
        2 => "kTCCServiceSystemPolicyAllFiles",
        3 => "kTCCServiceSystemPolicySysAdminFiles",
        4 => "kTCCServiceSystemPolicyDesktopFolder",
        5 => "kTCCServiceSystemPolicyDocumentsFolder",
        6 => "kTCCServiceSystemPolicyDownloadsFolder",
        7 => "kTCCServiceSystemPolicyNetworkVolumes",
        8 => "kTCCServiceSystemPolicyRemovableVolumes",
        9 => "kTCCServiceSystemPolicyDeveloperFiles",
        10 => "kTCCServiceCamera",
        11 => "kTCCServiceMicrophone",
        12 => "kTCCServicePhotos",
        13 => "kTCCServicePhotosAdd",
        14 => "kTCCServiceCalendar",
        15 => "kTCCServiceContacts",
        16 => "kTCCServiceReminders",
        17 => "kTCCServiceLocation",
        18 => "kTCCServiceAddressBook",
        19 => "kTCCServiceMediaLibrary",
        20 => "kTCCServiceAppleEvents",
        21 => "kTCCServiceListenEvent",
        22 => "kTCCServicePostEvent",
        23 => "kTCCServiceSpeechRecognition",
        24 => "kTCCServiceBluetoothAlways",
        25 => "kTCCServiceDeveloperTool",
        26 => "kTCCServiceEndpointSecurityClient",
        27 => "kTCCServiceFileProviderDomain",
        28 => "kTCCServiceFileProviderPresence",
        29 => "kTCCServiceFocusStatus",
        _ => "kTCCServiceLiverpool",
    }
}

/// Display name of the pairing at index `i`.
pub fn catalog_display(i: usize) -> (r: &'static str)
    requires
        i < CATALOG_LEN,
    ensures
        r@ == display_at(i as int),
{
    match i {
        0 => "Accessibility",
        1 => "Screen Recording",
        2 => "Full Disk Access",
        3 => "Administer Computer (SysAdmin)",
        4 => "Desktop Folder",
        5 => "Documents Folder",
        6 => "Downloads Folder",
        7 => "Network Volumes",
        8 => "Removable Volumes",
        9 => "Developer Files",
        10 => "Camera",
        11 => "Microphone",
        12 => "Photos",
        13 => "Photos (Add Only)",
        14 => "Calendar",
        15 => "Contacts",
        16 => "Reminders",
        17 => "Location",
        18 => "Address Book",
        19 => "Media Library",
        20 => "Apple Events / Automation",
        21 => "Input Monitoring",
        22 => "Post Events",
        23 => "Speech Recognition",
        24 => "Bluetooth",
        25 => "Developer Tool",
        26 => "Endpoint Security",
        27 => "File Provider",
        28 => "File Provider Presence",
        29 => "Focus Status",
        _ => "User Data (Liverpool)",
    }
}

/// Finds the first catalog index whose key is `s`.
pub fn find_key(s: &str) -> (r: Option<usize>)
    ensures
        match r {
            Some(i) => is_first_key_index(s@, i as int),
            None => !is_canonical(s@),
        },
{
    let mut i: usize = 0;
    while i < CATALOG_LEN
        invariant
            i <= CATALOG_LEN,
            forall|j: int| 0 <= j < i ==> #[trigger] key_at(j) != s@,
        decreases CATALOG_LEN - i,
    {
        if text_eq(catalog_key(i), s) {
            return Some(i);
        }
        i += 1;
    }
    None
}

/// Whether `s` is one of the catalog's canonical keys.
pub fn is_canonical_key(s: &str) -> (r: bool)
    ensures
        r == is_canonical(s@),
{
    find_key(s).is_some()
}

/// The first index of a canonical key is unique, so `key_index` names it.
pub proof fn lemma_key_index(s: Seq<char>, i: int)
    requires
        is_first_key_index(s, i),
    ensures
        is_canonical(s),
        key_index(s) == i,
{
    let k = key_index(s);
    assert(is_first_key_index(s, k));
    if k < i {
        assert(key_at(k) != s);
    }
    if i < k {
        assert(key_at(i) != s);
    }
}

/// The text shown for a raw service key.
pub fn service_display_name(raw: &str) -> (r: String)
    ensures
        r@ == display_name_of(raw@),
{
    match find_key(raw) {
        Some(i) => {
            proof {
                lemma_key_index(raw@, i as int);
            }
            String::from_str(catalog_display(i))
        },
        None => match strip_text_prefix(raw, "kTCCService") {
            Some(rest) => {
                proof {
                    let p = service_prefix();
                    assert(raw@.subrange(0, p.len() as int) == p);
                    assert(raw@.subrange(p.len() as int, raw@.len() as int) == rest@);
                }
                String::from_str(rest)
            },
            None => String::from_str(raw),
        },
    }
}

/// Every display name in the catalog has at least one character.
pub proof fn lemma_display_names_nonempty(i: int)
    requires
        0 <= i < CATALOG_LEN,
    ensures
        display_at(i).len() > 0,
{
    reveal_strlit("Accessibility");
    reveal_strlit("Screen Recording");
    reveal_strlit("Full Disk Access");
    reveal_strlit("Administer Computer (SysAdmin)");
    reveal_strlit("Desktop Folder");
    reveal_strlit("Documents Folder");
    reveal_strlit("Downloads Folder");
    reveal_strlit("Network Volumes");
    reveal_strlit("Removable Volumes");
    reveal_strlit("Developer Files");
    reveal_strlit("Camera");
    reveal_strlit("Microphone");
    reveal_strlit("Photos");
    reveal_strlit("Photos (Add Only)");
    reveal_strlit("Calendar");
    reveal_strlit("Contacts");
    reveal_strlit("Reminders");
    reveal_strlit("Location");
    reveal_strlit("Address Book");
    reveal_strlit("Media Library");
    reveal_strlit("Apple Events / Automation");
    reveal_strlit("Input Monitoring");
    reveal_strlit("Post Events");
    reveal_strlit("Speech Recognition");
    reveal_strlit("Bluetooth");
    reveal_strlit("Developer Tool");
    reveal_strlit("Endpoint Security");
    reveal_strlit("File Provider");
    reveal_strlit("File Provider Presence");
    reveal_strlit("Focus Status");
    reveal_strlit("User Data (Liverpool)");
}

/// Every canonical key is shown under a non-empty name, and that name is the
/// display name the catalog pairs it with.
pub proof fn lemma_canonical_display_nonempty(k: Seq<char>)
    requires
        is_canonical(k),
    ensures
        display_name_of(k).len() > 0,
        display_name_of(k) == display_at(key_index(k)),
{
    let i = choose|i: int| 0 <= i < CATALOG_LEN && #[trigger] key_at(i) == k;
    lemma_first_index_exists(k, i);
    lemma_display_names_nonempty(key_index(k));
}

/// A key that occurs at some index has a first index.
pub proof fn lemma_first_index_exists(s: Seq<char>, i: int)
    requires
        0 <= i < CATALOG_LEN,
        key_at(i) == s,
    ensures
        is_first_key_index(s, key_index(s)),
        key_index(s) <= i,
    decreases i,
{
    if exists|j: int| 0 <= j < i && #[trigger] key_at(j) == s {
        let j = choose|j: int| 0 <= j < i && #[trigger] key_at(j) == s;
        lemma_first_index_exists(s, j);
    } else {
        assert(is_first_key_index(s, i));
        lemma_key_index(s, i);
    }
}

/// The entry at index `a` is listed before the one at index `b`: by display
/// name, and among equal display names by index.
pub open spec fn listed_before(a: int, b: int) -> bool {
    lex_lt(display_at(a), display_at(b)) || (display_at(a) == display_at(b) && a < b)
}

/// `i` occurs in `order`.
pub open spec fn holds_index(order: Seq<int>, i: int) -> bool {
    exists|at: int| 0 <= at < order.len() && order[at] == i
}

/// `order` lists the catalog by display name: it holds every index once, and
/// each index is listed before those after it.
pub open spec fn is_catalog_order(order: Seq<int>) -> bool {
    &&& order.len() == CATALOG_LEN
    &&& forall|k: int| 0 <= k < order.len() ==> 0 <= #[trigger] order[k] < CATALOG_LEN
    &&& forall|i: int| 0 <= i < CATALOG_LEN ==> #[trigger] holds_index(order, i)
    &&& forall|i: int, j: int|
        0 <= i < j < order.len() ==> listed_before(#[trigger] order[i], #[trigger] order[j])
}

/// If `a` is listed before `b` and `b` before `c`, then `a` is listed before
/// `c`.
pub proof fn lemma_listed_before_transitive(a: int, b: int, c: int)
    requires
        listed_before(a, b),
        listed_before(b, c),
    ensures
        listed_before(a, c),
{
    if lex_lt(display_at(a), display_at(b)) && lex_lt(display_at(b), display_at(c)) {
        lemma_lex_transitive(display_at(a), display_at(b), display_at(c));
    }
}

/// Of two different indices one is listed before the other.
pub proof fn lemma_listed_before_total(a: int, b: int)
    requires
        a != b,
    ensures
        listed_before(a, b) || listed_before(b, a),
{
    lemma_lex_total(display_at(a), display_at(b));
}

/// A list of indices, as integers.
pub open spec fn indices(v: Seq<usize>) -> Seq<int> {
    v.map_values(|i: usize| i as int)
}

/// The indices of the catalog, ordered by display name.
pub fn catalog_by_display() -> (order: Vec<usize>)
    ensures
        is_catalog_order(indices(order@)),
{
    let mut order: Vec<usize> = Vec::new();
    let mut k: usize = 0;
    while k < CATALOG_LEN
        invariant
            k <= CATALOG_LEN,
            order@.len() == k,
            forall|i: int| 0 <= i < order@.len() ==> #[trigger] order@[i] < k,
            forall|i: int|
                0 <= i < k ==> #[trigger] holds_index(indices(order@), i),
            forall|i: int, j: int|
                0 <= i < j < order@.len() ==> listed_before(
                    #[trigger] order@[i] as int,
                    #[trigger] order@[j] as int,
                ),
        decreases CATALOG_LEN - k,
    {
        let name = catalog_display(k);
        let mut p: usize = 0;
        while p < order.len() && !text_lt(name, catalog_display(order[p]))
            invariant
                p <= order@.len(),
                k < CATALOG_LEN,
                name@ == display_at(k as int),
                forall|i: int| 0 <= i < order@.len() ==> #[trigger] order@[i] < k,
                forall|i: int|
                    0 <= i < p ==> !lex_lt(display_at(k as int), display_at(order@[i] as int)),
            decreases order@.len() - p,
        {
            p += 1;
        }
        let ghost before = order@;
        let ghost before_ints = indices(order@);
        order.insert(p, k);
        proof {
            let after = order@;
            let after_ints = indices(order@);
            assert(after =~= before.insert(p as int, k));
            assert forall|i: int, j: int| 0 <= i < j < after.len() implies listed_before(
                #[trigger] after[i] as int,
                #[trigger] after[j] as int,
            ) by {
                if j < p {
                    assert(listed_before(before[i] as int, before[j] as int));
                } else if j == p {
                    lemma_listed_before_total(before[i] as int, k as int);
                } else if i < p {
                    assert(listed_before(before[i] as int, before[j - 1] as int));
                } else if i == p {
                    assert(listed_before(k as int, before[p as int] as int));
                    if p as int != j - 1 {
                        assert(listed_before(before[p as int] as int, before[j - 1] as int));
                        lemma_listed_before_transitive(
                            k as int,
                            before[p as int] as int,
                            before[j - 1] as int,
                        );
                    }
                } else {
                    assert(listed_before(before[i - 1] as int, before[j - 1] as int));
                }
            }
            assert forall|i: int| 0 <= i < k + 1 implies #[trigger] holds_index(
                after_ints,
                i,
            ) by {
                if i == k {
                    assert(after_ints[p as int] == k as int);
                } else {
                    assert(holds_index(before_ints, i));
                    let at = choose|at: int| 0 <= at < before_ints.len() && before_ints[at] == i;
                    if at < p {
                        assert(after_ints[at] == i);
                    } else {
                        assert(after_ints[at + 1] == i);
                    }
                }
            }
        }
        k += 1;
    }
    order
}

} // verus!
