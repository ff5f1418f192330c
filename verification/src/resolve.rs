//! The name resolver: from what an operator typed to one canonical key.
//!
//! Resolution is a cascade, and the first step that applies decides: an exact
//! canonical key; a display name, compared without regard to case; a part of
//! exactly one display name; the input with the service prefix put before it.
//! An input that is part of several display names is refused, never guessed.

use vstd::prelude::*;
use vstd::string::*;
use vstd::seq_lib::*;
use crate::catalog::{
    catalog_display, catalog_key, display_at, is_canonical, is_canonical_key, key_at,
    service_prefix, CATALOG_LEN,
};
use crate::error::{ErrorModel, TccError};
use crate::text::{
    contains_text, is_substring, lemma_lex_total, lemma_lex_transitive, lex_le, lex_lt,
    lex_sorted, lowercase, text_eq, text_lt, texts, to_lower,
};

verus! {

/// The lower-case forms of the catalog's display names, in catalog order.
pub open spec fn folded_names() -> Seq<Seq<char>> {
    Seq::new(CATALOG_LEN as nat, |i: int| lowercase(display_at(i)))
}

/// `i` names a catalog entry and `names[i]` is `needle`.
pub open spec fn name_equals(names: Seq<Seq<char>>, i: int, needle: Seq<char>) -> bool {
    0 <= i < CATALOG_LEN && i < names.len() && names[i] == needle
}

/// `i` names a catalog entry and `needle` is part of `names[i]`.
pub open spec fn name_contains(names: Seq<Seq<char>>, i: int, needle: Seq<char>) -> bool {
    0 <= i < CATALOG_LEN && i < names.len() && is_substring(names[i], needle)
}

/// The display name at index `i` equals `input` when case is ignored.
pub open spec fn display_equals(i: int, input: Seq<char>) -> bool {
    name_equals(folded_names(), i, lowercase(input))
}

/// `input` is part of the display name at index `i` when case is ignored.
pub open spec fn display_contains(i: int, input: Seq<char>) -> bool {
    name_contains(folded_names(), i, lowercase(input))
}

/// `i` is the first index at which `names` holds `needle`.
pub open spec fn is_first_name_equal(names: Seq<Seq<char>>, needle: Seq<char>, i: int) -> bool {
    &&& name_equals(names, i, needle)
    &&& forall|j: int| 0 <= j < i ==> !#[trigger] name_equals(names, j, needle)
}

/// Some entry of `names` is `needle`.
pub open spec fn has_name_equal(names: Seq<Seq<char>>, needle: Seq<char>) -> bool {
    exists|i: int| #[trigger] name_equals(names, i, needle)
}

/// The indices below `n`, ascending, at which `names` contains `needle`.
pub open spec fn partial_matches(names: Seq<Seq<char>>, needle: Seq<char>, n: int) -> Seq<int>
    decreases n,
{
    if n <= 0 {
        Seq::empty()
    } else if name_contains(names, n - 1, needle) {
        partial_matches(names, needle, n - 1).push(n - 1)
    } else {
        partial_matches(names, needle, n - 1)
    }
}

/// The display names at whose indices `names` contains `needle`, in catalog
/// order.
pub open spec fn candidate_names(names: Seq<Seq<char>>, needle: Seq<char>) -> Seq<Seq<char>> {
    partial_matches(names, needle, CATALOG_LEN as int).map_values(|i: int| display_at(i))
}

/// What the cascade decides for an input.
pub enum Resolution {
    /// The input stands for this canonical key.
    Key(Seq<char>),
    /// The input is part of two or more display names.
    Ambiguous,
    /// No step applies.
    Unknown,
}

/// The decision of the cascade, step by step, for an input whose lower-case
/// form is `needle`, against display names whose lower-case forms are `names`.
pub open spec fn resolution_over(
    input: Seq<char>,
    needle: Seq<char>,
    names: Seq<Seq<char>>,
) -> Resolution {
    let partial = partial_matches(names, needle, CATALOG_LEN as int);
    if is_canonical(input) {
        Resolution::Key(input)
    } else if has_name_equal(names, needle) {
        Resolution::Key(key_at(choose|i: int| is_first_name_equal(names, needle, i)))
    } else if partial.len() == 1 {
        Resolution::Key(key_at(partial[0]))
    } else if partial.len() > 1 {
        Resolution::Ambiguous
    } else if is_canonical(service_prefix() + input) {
        Resolution::Key(service_prefix() + input)
    } else {
        Resolution::Unknown
    }
}

/// The decision of the cascade for an input.
pub open spec fn resolution(input: Seq<char>) -> Resolution {
    resolution_over(input, lowercase(input), folded_names())
}

/// `r` is what the cascade must return for `input`, with lower-case forms
/// `needle` and `names`.
pub open spec fn resolves_as_over(
    input: Seq<char>,
    needle: Seq<char>,
    names: Seq<Seq<char>>,
    r: Result<String, TccError>,
) -> bool {
    match resolution_over(input, needle, names) {
        Resolution::Key(k) => r matches Ok(s) && s@ == k,
        Resolution::Ambiguous => r matches Err(e) && (e@ matches ErrorModel::AmbiguousService {
            input: i,
            matches: m,
        } && i == input && lex_sorted(m) && m.to_multiset() == candidate_names(
            names,
            needle,
        ).to_multiset()),
        Resolution::Unknown => r matches Err(e) && e@ == ErrorModel::UnknownService(input),
    }
}

/// `r` is what resolving `input` must return.
pub open spec fn resolves_as(input: Seq<char>, r: Result<String, TccError>) -> bool {
    resolves_as_over(input, lowercase(input), folded_names(), r)
}

/// What `partial_matches` holds: exactly the indices below `n` at which
/// `names` contains `needle`, each once, in ascending order.
pub proof fn lemma_partial_matches(names: Seq<Seq<char>>, needle: Seq<char>, n: int)
    requires
        0 <= n,
    ensures
        forall|k: int|
            0 <= k < partial_matches(names, needle, n).len() ==> {
                &&& 0 <= #[trigger] partial_matches(names, needle, n)[k] < n
                &&& name_contains(names, partial_matches(names, needle, n)[k], needle)
            },
        forall|k: int, l: int|
            0 <= k < l < partial_matches(names, needle, n).len() ==> partial_matches(
                names,
                needle,
                n,
            )[k] < partial_matches(names, needle, n)[l],
        forall|i: int|
            0 <= i < n && name_contains(names, i, needle) ==> partial_matches(
                names,
                needle,
                n,
            ).contains(i),
    decreases n,
{
    if n > 0 {
        lemma_partial_matches(names, needle, n - 1);
        let rest = partial_matches(names, needle, n - 1);
        let all = partial_matches(names, needle, n);
        if name_contains(names, n - 1, needle) {
            assert(all == rest.push(n - 1));
            assert(all[rest.len() as int] == n - 1);
            assert forall|i: int| 0 <= i < n && name_contains(names, i, needle) implies all.contains(
                i,
            ) by {
                if i < n - 1 {
                    let k = choose|k: int| 0 <= k < rest.len() && rest[k] == i;
                    assert(all[k] == i);
                }
            }
        }
    }
}

/// An input that is no canonical key and that, case ignored, is part of
/// exactly one display name resolves to the key of that name, whether it is
/// the whole name or less.
pub proof fn lemma_unique_partial_match_resolves(
    input: Seq<char>,
    i: int,
    r: Result<String, TccError>,
)
    requires
        resolves_as(input, r),
        !is_canonical(input),
        0 <= i < CATALOG_LEN,
        display_contains(i, input),
        forall|j: int| 0 <= j < CATALOG_LEN && j != i ==> !display_contains(j, input),
    ensures
        r matches Ok(s) && s@ == key_at(i),
{
    let names = folded_names();
    let needle = lowercase(input);
    let found = partial_matches(names, needle, CATALOG_LEN as int);
    lemma_partial_matches(names, needle, CATALOG_LEN as int);
    assert(name_contains(names, i, needle));
    assert(found.contains(i));
    let k = choose|k: int| 0 <= k < found.len() && found[k] == i;
    if found.len() > 1 {
        assert(found[0] < found[1]);
        assert(display_contains(found[0], input));
        assert(display_contains(found[1], input));
    }
    assert(found.len() == 1);
    assert(k == 0);
    if has_name_equal(names, needle) {
        let first = choose|e: int| is_first_name_equal(names, needle, e);
        let some = choose|e: int| #[trigger] name_equals(names, e, needle);
        lemma_first_name_exists(names, needle, some);
        assert(is_first_name_equal(names, needle, first));
        assert(names[first].subrange(0, 0 + needle.len() as int) =~= needle);
        assert(display_contains(first, input));
        assert(first == i);
    }
}

/// Where some entry of `names` is `needle`, there is a first one.
proof fn lemma_first_name_exists(names: Seq<Seq<char>>, needle: Seq<char>, e: int)
    requires
        name_equals(names, e, needle),
    ensures
        exists|first: int| is_first_name_equal(names, needle, first),
    decreases e,
{
    if exists|j: int| 0 <= j < e && #[trigger] name_equals(names, j, needle) {
        let j = choose|j: int| 0 <= j < e && #[trigger] name_equals(names, j, needle);
        lemma_first_name_exists(names, needle, j);
    } else {
        assert(is_first_name_equal(names, needle, e));
    }
}

/// An input that is neither a canonical key nor, case ignored, a display name,
/// and that is part of the display names of two different catalog entries, is
/// refused as ambiguous. The failure carries the input and lists, in ascending
/// order, the display names that contain it: each of them, and nothing else.
pub proof fn lemma_multiple_partial_matches_ambiguous(
    input: Seq<char>,
    i: int,
    j: int,
    r: Result<String, TccError>,
)
    requires
        resolves_as(input, r),
        !is_canonical(input),
        forall|k: int| 0 <= k < CATALOG_LEN ==> !display_equals(k, input),
        0 <= i < CATALOG_LEN,
        0 <= j < CATALOG_LEN,
        i != j,
        display_contains(i, input),
        display_contains(j, input),
    ensures
        r matches Err(e) && (e@ matches ErrorModel::AmbiguousService { input: given, matches: m }
            && {
            &&& given == input
            &&& lex_sorted(m)
            &&& forall|name: Seq<char>|
                m.contains(name) <==> exists|k: int|
                    0 <= k < CATALOG_LEN && display_contains(k, input) && #[trigger] display_at(k)
                        == name
        }),
{
    broadcast use group_to_multiset_ensures;

    let names = folded_names();
    let needle = lowercase(input);
    let found = partial_matches(names, needle, CATALOG_LEN as int);
    lemma_partial_matches(names, needle, CATALOG_LEN as int);
    assert(name_contains(names, i, needle));
    assert(name_contains(names, j, needle));
    assert(found.contains(i));
    assert(found.contains(j));
    let ki = choose|k: int| 0 <= k < found.len() && found[k] == i;
    let kj = choose|k: int| 0 <= k < found.len() && found[k] == j;
    assert(ki != kj);
    assert(found.len() > 1);
    assert forall|k: int| !#[trigger] name_equals(names, k, needle) by {
        if 0 <= k < CATALOG_LEN {
            assert(!display_equals(k, input));
        }
    }
    match r {
        Err(TccError::AmbiguousService { input: given, matches }) => {
            let m = texts(matches@);
            let shown = candidate_names(names, needle);
            assert forall|name: Seq<char>|
                m.contains(name) <==> exists|k: int|
                    0 <= k < CATALOG_LEN && display_contains(k, input) && #[trigger] display_at(k)
                        == name by {
                assert(m.contains(name) <==> m.to_multiset().count(name) > 0);
                assert(shown.contains(name) <==> shown.to_multiset().count(name) > 0);
                if shown.contains(name) {
                    let p = choose|p: int| 0 <= p < shown.len() && shown[p] == name;
                    assert(display_contains(found[p], input) && display_at(found[p]) == name);
                }
                if exists|k: int|
                    0 <= k < CATALOG_LEN && display_contains(k, input) && #[trigger] display_at(k)
                        == name {
                    let k = choose|k: int|
                        0 <= k < CATALOG_LEN && display_contains(k, input) && #[trigger] display_at(
                            k,
                        ) == name;
                    assert(found.contains(k));
                    let p = choose|p: int| 0 <= p < found.len() && found[p] == k;
                    assert(shown[p] == name);
                }
            }
        },
        _ => {},
    }
}

/// The first index at which `names` holds `needle` is unique.
proof fn lemma_first_name_equal(names: Seq<Seq<char>>, needle: Seq<char>, i: int)
    requires
        is_first_name_equal(names, needle, i),
    ensures
        has_name_equal(names, needle),
        (choose|k: int| is_first_name_equal(names, needle, k)) == i,
{
    let k = choose|k: int| is_first_name_equal(names, needle, k);
    assert(is_first_name_equal(names, needle, k));
    if k < i {
        assert(!name_equals(names, k, needle));
    }
    if i < k {
        assert(!name_equals(names, i, needle));
    }
}

/// How many entries of `names` stand for catalog entries.
fn usable_len(names: &Vec<String>) -> (n: usize)
    ensures
        n <= CATALOG_LEN,
        n <= names@.len(),
        n == CATALOG_LEN || n == names@.len(),
{
    if names.len() < CATALOG_LEN {
        names.len()
    } else {
        CATALOG_LEN
    }
}

/// Finds the first entry of `names` that is `needle`.
fn find_name_equal(names: &Vec<String>, needle: &str) -> (r: Option<usize>)
    ensures
        match r {
            Some(i) => is_first_name_equal(texts(names@), needle@, i as int),
            None => !has_name_equal(texts(names@), needle@),
        },
{
    let n = usable_len(names);
    let mut i: usize = 0;
    while i < n
        invariant
            i <= n,
            n <= CATALOG_LEN,
            n <= names@.len(),
            n == CATALOG_LEN || n == names@.len(),
            forall|j: int| 0 <= j < i ==> !#[trigger] name_equals(texts(names@), j, needle@),
        decreases n - i,
    {
        if text_eq(names[i].as_str(), needle) {
            return Some(i);
        }
        i += 1;
    }
    None
}

/// Collects the indices at which `names` contains `needle`.
fn find_partial_matches(names: &Vec<String>, needle: &str) -> (r: Vec<usize>)
    ensures
        r@.map_values(|i: usize| i as int) == partial_matches(
            texts(names@),
            needle@,
            CATALOG_LEN as int,
        ),
        forall|k: int| 0 <= k < r@.len() ==> #[trigger] r@[k] < CATALOG_LEN,
{
    let n = usable_len(names);
    let mut found: Vec<usize> = Vec::new();
    let mut i: usize = 0;
    assert(found@.map_values(|i: usize| i as int) =~= partial_matches(texts(names@), needle@, 0));
    while i < n
        invariant
            i <= n,
            n <= CATALOG_LEN,
            n <= names@.len(),
            n == CATALOG_LEN || n == names@.len(),
            found@.map_values(|i: usize| i as int) == partial_matches(
                texts(names@),
                needle@,
                i as int,
            ),
            forall|k: int| 0 <= k < found@.len() ==> #[trigger] found@[k] < CATALOG_LEN,
        decreases n - i,
    {
        let ghost before = found@;
        if contains_text(names[i].as_str(), needle) {
            found.push(i);
            assert(found@.map_values(|i: usize| i as int) =~= before.map_values(
                |i: usize| i as int,
            ).push(i as int));
        }
        i += 1;
    }
    proof {
        lemma_partial_matches_beyond(texts(names@), needle@, n as int, CATALOG_LEN as int);
    }
    found
}

/// Indices past the end of `names` add no match.
proof fn lemma_partial_matches_beyond(names: Seq<Seq<char>>, needle: Seq<char>, n: int, m: int)
    requires
        0 <= n <= m,
        n == CATALOG_LEN || n == names.len(),
        n <= names.len(),
    ensures
        partial_matches(names, needle, m) == partial_matches(names, needle, n),
    decreases m - n,
{
    if n < m {
        lemma_partial_matches_beyond(names, needle, n, m - 1);
        assert(!name_contains(names, m - 1, needle));
    }
}

/// Puts `name` into the ascending list `names`, after the entries equal to it.
fn insert_name(names: &mut Vec<String>, name: String)
    requires
        lex_sorted(texts(old(names)@)),
    ensures
        lex_sorted(texts(final(names)@)),
        texts(final(names)@).to_multiset() == texts(old(names)@).to_multiset().insert(name@),
{
    let mut p: usize = 0;
    while p < names.len() && !text_lt(name.as_str(), names[p].as_str())
        invariant
            p <= names@.len(),
            names@ == old(names)@,
            forall|k: int| 0 <= k < p ==> !lex_lt(name@, #[trigger] names@[k]@),
        decreases names@.len() - p,
    {
        p += 1;
    }
    let ghost before = texts(names@);
    names.insert(p, name);
    proof {
        let after = texts(names@);
        assert(after =~= before.insert(p as int, name@));
        to_multiset_insert(before, p as int, name@);
        assert forall|i: int, j: int| 0 <= i < j < after.len() implies lex_le(
            #[trigger] after[i],
            #[trigger] after[j],
        ) by {
            if j < p {
                assert(lex_le(before[i], before[j]));
            } else if j == p {
                lemma_lex_total(name@, before[i]);
            } else if i < p {
                assert(lex_le(before[i], before[j - 1]));
            } else if i == p {
                assert(lex_lt(name@, before[p as int]));
                if p as int != j - 1 {
                    assert(lex_le(before[p as int], before[j - 1]));
                }
                if before[p as int] != before[j - 1] {
                    lemma_lex_transitive(name@, before[p as int], before[j - 1]);
                }
            } else {
                assert(lex_le(before[i - 1], before[j - 1]));
            }
        }
    }
}

/// The display names at the given indices, in ascending order.
fn sorted_display_names(found: &Vec<usize>) -> (r: Vec<String>)
    requires
        forall|k: int| 0 <= k < found@.len() ==> #[trigger] found@[k] < CATALOG_LEN,
    ensures
        lex_sorted(texts(r@)),
        texts(r@).to_multiset() == found@.map_values(|i: usize| i as int).map_values(
            |i: int| display_at(i),
        ).to_multiset(),
{
    let mut names: Vec<String> = Vec::new();
    let mut k: usize = 0;
    let ghost all = found@.map_values(|i: usize| i as int).map_values(|i: int| display_at(i));
    proof {
        assert(texts(names@) =~= all.take(0));
    }
    while k < found.len()
        invariant
            k <= found@.len(),
            all == found@.map_values(|i: usize| i as int).map_values(|i: int| display_at(i)),
            forall|j: int| 0 <= j < found@.len() ==> #[trigger] found@[j] < CATALOG_LEN,
            lex_sorted(texts(names@)),
            texts(names@).to_multiset() == all.take(k as int).to_multiset(),
        decreases found@.len() - k,
    {
        let idx = found[k];
        let name = String::from_str(catalog_display(idx));
        proof {
            assert(all[k as int] == name@);
            assert(all.take(k as int + 1) =~= all.take(k as int).push(name@));
            to_multiset_build(all.take(k as int), name@);
        }
        insert_name(&mut names, name);
        k += 1;
    }
    proof {
        assert(all.take(k as int) =~= all);
    }
    names
}

/// The lower-case forms of the catalog's display names, in catalog order.
pub fn folded_display_names() -> (r: Vec<String>)
    ensures
        texts(r@) == folded_names(),
{
    let mut names: Vec<String> = Vec::new();
    let mut i: usize = 0;
    while i < CATALOG_LEN
        invariant
            i <= CATALOG_LEN,
            names@.len() == i,
            forall|j: int| 0 <= j < i ==> #[trigger] names@[j]@ == lowercase(display_at(j)),
        decreases CATALOG_LEN - i,
    {
        names.push(to_lower(catalog_display(i)));
        i += 1;
    }
    assert(texts(names@) =~= folded_names());
    names
}

/// Runs the resolution cascade for `input`, given its lower-case form
/// `needle` and the lower-case forms `names` of the catalog's display names,
/// index by index.
///
/// The result is the decision of [`resolution_over`]: the key, or a failure
/// that carries the input and, when `needle` is part of several names, the
/// display names at those indices in ascending order. Entries of `names`
/// past the catalog's length are not looked at, and missing ones match
/// nothing.
pub fn resolve_folded(input: &str, needle: &str, names: &Vec<String>) -> (r: Result<
    String,
    TccError,
>)
    ensures
        resolves_as_over(input@, needle@, texts(names@), r),
{
    if is_canonical_key(input) {
        return Ok(String::from_str(input));
    }
    match find_name_equal(names, needle) {
        Some(i) => {
            proof {
                lemma_first_name_equal(texts(names@), needle@, i as int);
            }
            return Ok(String::from_str(catalog_key(i)));
        },
        None => {},
    }
    let found = find_partial_matches(names, needle);
    proof {
        assert(found@.map_values(|i: usize| i as int).len() == found@.len());
    }
    if found.len() == 1 {
        let idx = found[0];
        proof {
            assert(found@.map_values(|i: usize| i as int)[0] == idx as int);
        }
        return Ok(String::from_str(catalog_key(idx)));
    }
    if found.len() > 1 {
        let shown = sorted_display_names(&found);
        return Err(TccError::AmbiguousService { input: String::from_str(input), matches: shown });
    }
    let prefixed = String::from_str("kTCCService").concat(input);
    if is_canonical_key(prefixed.as_str()) {
        return Ok(prefixed);
    }
    Err(TccError::UnknownService(String::from_str(input)))
}

/// Resolves what an operator typed to one canonical service key.
///
/// The result is the decision of [`resolution`]: the key, or a failure that
/// carries the input and, when the input is part of several display names,
/// those names in ascending order.
pub fn resolve_service(input: &str) -> (r: Result<String, TccError>)
    ensures
        resolves_as(input@, r),
{
    let needle = to_lower(input);
    let names = folded_display_names();
    resolve_folded(input, needle.as_str(), &names)
}

} // verus!
