//! The query engine's pure part: selecting entries by client and service and
//! putting them in the order in which a listing reports them.

use vstd::prelude::*;
use vstd::string::*;
use vstd::seq_lib::*;
use crate::entry::{models, EntryModel, TccEntry};
use crate::text::{
    contains_text, is_substring, lemma_lex_asymmetric, lemma_lex_irreflexive,
    lemma_lex_total, lemma_lex_transitive, lex_lt, lowercase, text_eq, text_lt, to_lower,
};

verus! {

/// The entry's client contains `filter`, case ignored.
pub open spec fn client_matches(e: EntryModel, filter: Seq<char>) -> bool {
    is_substring(lowercase(e.client), lowercase(filter))
}

/// The entry's display name or its canonical key contains `filter`, case
/// ignored.
pub open spec fn service_matches(e: EntryModel, filter: Seq<char>) -> bool {
    is_substring(lowercase(e.service_display), lowercase(filter)) || is_substring(
        lowercase(e.service_raw),
        lowercase(filter),
    )
}

/// The entry passes both filters; an absent filter passes everything.
pub open spec fn selected(
    e: EntryModel,
    client_filter: Option<Seq<char>>,
    service_filter: Option<Seq<char>>,
) -> bool {
    &&& client_filter matches Some(c) ==> client_matches(e, c)
    &&& service_filter matches Some(s) ==> service_matches(e, s)
}

/// The characters of an optional text.
pub open spec fn opt_text(o: Option<&str>) -> Option<Seq<char>> {
    match o {
        Some(s) => Some(s@),
        None => None,
    }
}

/// The entries of `all` that pass both filters, in their order.
pub open spec fn selection(
    all: Seq<EntryModel>,
    client_filter: Option<Seq<char>>,
    service_filter: Option<Seq<char>>,
) -> Seq<EntryModel> {
    all.filter(|e: EntryModel| selected(e, client_filter, service_filter))
}

/// The decision on one entry, over texts that are already in lower case: the
/// client holds the client filter, and the display name or the key holds the
/// service filter.
pub open spec fn passes(
    client: Seq<char>,
    display: Seq<char>,
    key: Seq<char>,
    client_filter: Option<Seq<char>>,
    service_filter: Option<Seq<char>>,
) -> bool {
    &&& client_filter matches Some(c) ==> is_substring(client, c)
    &&& service_filter matches Some(s) ==> is_substring(display, s) || is_substring(key, s)
}

/// Decides whether an entry passes the filters, given the lower-case forms of
/// its client, display name and key, and of the filters.
pub fn passes_filters(
    client: &str,
    display: &str,
    key: &str,
    client_filter: Option<&str>,
    service_filter: Option<&str>,
) -> (r: bool)
    ensures
        r == passes(client@, display@, key@, opt_text(client_filter), opt_text(service_filter)),
{
    let client_ok = match client_filter {
        Some(c) => contains_text(client, c),
        None => true,
    };
    let service_ok = match service_filter {
        Some(s) => contains_text(display, s) || contains_text(key, s),
        None => true,
    };
    client_ok && service_ok
}

/// Borrows the text of an optional string.
fn opt_str(o: &Option<String>) -> (r: Option<&str>)
    ensures
        match (r, o) {
            (Some(a), Some(b)) => a@ == b@,
            (None, None) => true,
            _ => false,
        },
{
    match o {
        Some(s) => Some(s.as_str()),
        None => None,
    }
}

/// The lower-case form of an optional filter.
fn lower_filter(filter: Option<&str>) -> (r: Option<String>)
    ensures
        match (r, opt_text(filter)) {
            (Some(l), Some(f)) => l@ == lowercase(f),
            (None, None) => true,
            _ => false,
        },
{
    match filter {
        Some(f) => Some(to_lower(f)),
        None => None,
    }
}

/// Keeps the entries whose client contains `client_filter` and whose display
/// name or canonical key contains `service_filter`, both without regard to
/// case. An absent filter keeps everything. The order is kept.
pub fn filter_entries(
    entries: Vec<TccEntry>,
    client_filter: Option<&str>,
    service_filter: Option<&str>,
) -> (r: Vec<TccEntry>)
    ensures
        models(r@) == selection(models(entries@), opt_text(client_filter), opt_text(service_filter)),
{
    let client_lower = lower_filter(client_filter);
    let service_lower = lower_filter(service_filter);
    let ghost cf = opt_text(client_filter);
    let ghost sf = opt_text(service_filter);
    let ghost pred = |e: EntryModel| selected(e, cf, sf);
    let ghost all = models(entries@);
    let mut kept: Vec<TccEntry> = Vec::new();
    proof {
        reveal(Seq::filter);
        assert(all.take(0).filter(pred) =~= models(kept@));
    }
    for e in it: entries
        invariant
            it.seq() == entries@,
            all == models(entries@),
            pred == (|e: EntryModel| selected(e, cf, sf)),
            match (client_lower, cf) {
                (Some(l), Some(f)) => l@ == lowercase(f),
                (None, None) => true,
                _ => false,
            },
            match (service_lower, sf) {
                (Some(l), Some(f)) => l@ == lowercase(f),
                (None, None) => true,
                _ => false,
            },
            models(kept@) == all.take(it.index() as int).filter(pred),
    {
        let ghost i = it.index() as int;
        let ghost before = models(kept@);
        proof {
            assert(all.take(i + 1) =~= all.take(i).push(e@));
            all.take(i).lemma_filter_push(e@, pred);
        }
        let client = to_lower(e.client.as_str());
        let display = to_lower(e.service_display.as_str());
        let key = to_lower(e.service_raw.as_str());
        let keep = passes_filters(
            client.as_str(),
            display.as_str(),
            key.as_str(),
            opt_str(&client_lower),
            opt_str(&service_lower),
        );
        assert(keep == selected(e@, cf, sf));
        if keep {
            kept.push(e);
            assert(models(kept@) =~= before.push(e@));
        }
    }
    proof {
        assert(all.take(all.len() as int) =~= all);
    }
    kept
}

/// `a` comes strictly before `b` in a listing: by display name, and among
/// equal display names by client.
pub open spec fn entry_before(a: EntryModel, b: EntryModel) -> bool {
    lex_lt(a.service_display, b.service_display) || (a.service_display == b.service_display
        && lex_lt(a.client, b.client))
}

/// No entry of `s` comes strictly before an earlier one.
pub open spec fn in_listing_order(s: Seq<EntryModel>) -> bool {
    forall|i: int, j: int| 0 <= i < j < s.len() ==> !entry_before(#[trigger] s[j], #[trigger] s[i])
}

/// The entries of `s` with the given display name and client, in their order.
pub open spec fn with_rank(s: Seq<EntryModel>, display: Seq<char>, client: Seq<char>) -> Seq<
    EntryModel,
> {
    s.filter(|e: EntryModel| e.service_display == display && e.client == client)
}

/// `out` is `input` put in listing order without disturbing entries of equal
/// rank: it is in order, holds the same entries as often, and keeps those
/// with the same display name and client in the order they had.
pub open spec fn is_listing_of(out: Seq<EntryModel>, input: Seq<EntryModel>) -> bool {
    &&& in_listing_order(out)
    &&& out.len() == input.len()
    &&& out.to_multiset() == input.to_multiset()
    &&& forall|display: Seq<char>, client: Seq<char>| #[trigger]
        with_rank(out, display, client) == with_rank(input, display, client)
}

/// The strict listing order never holds both ways, nor of an entry and itself.
pub proof fn lemma_entry_before_asymmetric(a: EntryModel, b: EntryModel)
    requires
        entry_before(a, b),
    ensures
        !entry_before(b, a),
        !(a.service_display == b.service_display && a.client == b.client),
{
    lemma_lex_irreflexive(a.service_display);
    lemma_lex_irreflexive(a.client);
    if lex_lt(a.service_display, b.service_display) {
        lemma_lex_asymmetric(a.service_display, b.service_display);
    } else {
        lemma_lex_asymmetric(a.client, b.client);
    }
}

/// The strict listing order is transitive.
pub proof fn lemma_entry_before_transitive(a: EntryModel, b: EntryModel, c: EntryModel)
    requires
        entry_before(a, b),
        entry_before(b, c),
    ensures
        entry_before(a, c),
{
    if lex_lt(a.service_display, b.service_display) && lex_lt(
        b.service_display,
        c.service_display,
    ) {
        lemma_lex_transitive(a.service_display, b.service_display, c.service_display);
    } else if a.service_display == b.service_display && b.service_display == c.service_display {
        lemma_lex_transitive(a.client, b.client, c.client);
    }
}

/// Whether `a` comes strictly before `b` in a listing.
pub fn entry_precedes(a: &TccEntry, b: &TccEntry) -> (r: bool)
    ensures
        r == entry_before(a@, b@),
{
    if text_lt(a.service_display.as_str(), b.service_display.as_str()) {
        true
    } else if text_eq(a.service_display.as_str(), b.service_display.as_str()) {
        text_lt(a.client.as_str(), b.client.as_str())
    } else {
        false
    }
}

/// Inserting `e` at `p` adds it to the entries of its own rank, at the end
/// when nothing from `p` on has that rank, and leaves other ranks alone.
proof fn lemma_with_rank_insert(
    s: Seq<EntryModel>,
    p: int,
    e: EntryModel,
    display: Seq<char>,
    client: Seq<char>,
)
    requires
        0 <= p <= s.len(),
        forall|k: int|
            p <= k < s.len() ==> !(#[trigger] s[k].service_display == e.service_display
                && s[k].client == e.client),
    ensures
        with_rank(s.insert(p, e), display, client) == if e.service_display == display && e.client
            == client {
            with_rank(s, display, client).push(e)
        } else {
            with_rank(s, display, client)
        },
{
    let pred = |x: EntryModel| x.service_display == display && x.client == client;
    let head = s.take(p);
    let tail = s.skip(p);
    assert(s =~= head + tail);
    assert(s.insert(p, e) =~= head.push(e) + tail);
    Seq::filter_distributes_over_add(head, tail, pred);
    Seq::filter_distributes_over_add(head.push(e), tail, pred);
    head.lemma_filter_push(e, pred);
    if pred(e) {
        assert forall|k: int| 0 <= k < tail.len() implies !pred(#[trigger] tail[k]) by {
            assert(tail[k] == s[p + k]);
        }
        tail.lemma_all_neg_filter_empty(pred);
        assert(tail.filter(pred) =~= Seq::<EntryModel>::empty());
        assert(head.filter(pred) + tail.filter(pred) =~= head.filter(pred));
        assert(head.filter(pred).push(e) + tail.filter(pred) =~= head.filter(pred).push(e));
    }
}

/// Puts `e` into the listing `out`, after the entries of equal rank.
fn insert_entry(out: &mut Vec<TccEntry>, e: TccEntry)
    requires
        in_listing_order(models(old(out)@)),
    ensures
        in_listing_order(models(final(out)@)),
        models(final(out)@).to_multiset() == models(old(out)@).to_multiset().insert(e@),
        forall|display: Seq<char>, client: Seq<char>| #[trigger]
            with_rank(models(final(out)@), display, client) == if e@.service_display == display
                && e@.client == client {
                with_rank(models(old(out)@), display, client).push(e@)
            } else {
                with_rank(models(old(out)@), display, client)
            },
{
    let mut p: usize = 0;
    while p < out.len() && !entry_precedes(&e, &out[p])
        invariant
            p <= out@.len(),
            out@ == old(out)@,
            forall|k: int| 0 <= k < p ==> !entry_before(e@, #[trigger] out@[k]@),
        decreases out@.len() - p,
    {
        p += 1;
    }
    let ghost before = models(out@);
    let ghost em = e@;
    out.insert(p, e);
    proof {
        let after = models(out@);
        assert(after =~= before.insert(p as int, em));
        to_multiset_insert(before, p as int, em);
        assert forall|k: int| p <= k < before.len() implies entry_before(
            em,
            #[trigger] before[k],
        ) by {
            assert(entry_before(em, before[p as int]));
            if k > p {
                assert(!entry_before(before[k], before[p as int]));
                lemma_entry_order_extends(em, before[p as int], before[k]);
            }
        }
        assert forall|i: int, j: int| 0 <= i < j < after.len() implies !entry_before(
            #[trigger] after[j],
            #[trigger] after[i],
        ) by {
            if j < p {
                assert(!entry_before(before[j], before[i]));
            } else if j == p {
                assert(!entry_before(em, before[i]));
            } else if i < p {
                assert(!entry_before(before[j - 1], before[i]));
            } else if i == p {
                assert(entry_before(em, before[j - 1]));
                lemma_entry_before_asymmetric(em, before[j - 1]);
            } else {
                assert(!entry_before(before[j - 1], before[i - 1]));
            }
        }
        assert forall|display: Seq<char>, client: Seq<char>| #[trigger]
            with_rank(after, display, client) == if em.service_display == display && em.client
                == client {
                with_rank(before, display, client).push(em)
            } else {
                with_rank(before, display, client)
            } by {
            assert forall|k: int| p <= k < before.len() implies !(
            #[trigger] before[k].service_display == em.service_display && before[k].client
                == em.client) by {
                lemma_entry_before_asymmetric(em, before[k]);
            }
            lemma_with_rank_insert(before, p as int, em, display, client);
        }
    }
}

/// If `a` is before `b` and `c` is not before `b`, then `a` is before `c`.
proof fn lemma_entry_order_extends(a: EntryModel, b: EntryModel, c: EntryModel)
    requires
        entry_before(a, b),
        !entry_before(c, b),
    ensures
        entry_before(a, c),
{
    lemma_lex_total(b.service_display, c.service_display);
    lemma_lex_total(b.client, c.client);
    if b.service_display == c.service_display && b.client == c.client {
    } else {
        assert(entry_before(b, c));
        lemma_entry_before_transitive(a, b, c);
    }
}

/// Puts entries in listing order: ascending by display name, and among equal
/// display names ascending by client. Entries that agree in both keep the
/// order in which they were given.
pub fn sort_entries(entries: Vec<TccEntry>) -> (r: Vec<TccEntry>)
    ensures
        is_listing_of(models(r@), models(entries@)),
{
    let ghost all = models(entries@);
    let mut out: Vec<TccEntry> = Vec::new();
    proof {
        reveal(Seq::filter);
        assert(all.take(0) =~= models(out@));
        assert forall|display: Seq<char>, client: Seq<char>| #[trigger]
            with_rank(models(out@), display, client) == with_rank(all.take(0), display, client) by {}
    }
    for e in it: entries
        invariant
            it.seq() == entries@,
            all == models(entries@),
            in_listing_order(models(out@)),
            models(out@).to_multiset() == all.take(it.index() as int).to_multiset(),
            forall|display: Seq<char>, client: Seq<char>| #[trigger]
                with_rank(models(out@), display, client) == with_rank(
                    all.take(it.index() as int),
                    display,
                    client,
                ),
    {
        let ghost i = it.index() as int;
        let ghost before = models(out@);
        proof {
            assert(all.take(i + 1) =~= all.take(i).push(e@));
            to_multiset_build(all.take(i), e@);
            assert forall|display: Seq<char>, client: Seq<char>| #[trigger]
                with_rank(all.take(i + 1), display, client) == if e@.service_display == display
                    && e@.client == client {
                    with_rank(all.take(i), display, client).push(e@)
                } else {
                    with_rank(all.take(i), display, client)
                } by {
                all.take(i).lemma_filter_push(
                    e@,
                    |x: EntryModel| x.service_display == display && x.client == client,
                );
            }
        }
        insert_entry(&mut out, e);
    }
    proof {
        assert(all.take(all.len() as int) =~= all);
        to_multiset_len(models(out@));
        to_multiset_len(all);
    }
    out
}

/// Every entry of a listing is one of the entries listed.
pub proof fn lemma_listing_members(out: Seq<EntryModel>, input: Seq<EntryModel>)
    requires
        is_listing_of(out, input),
    ensures
        forall|i: int| 0 <= i < out.len() ==> input.contains(#[trigger] out[i]),
{
    assert forall|i: int| 0 <= i < out.len() implies input.contains(#[trigger] out[i]) by {
        assert(out.contains(out[i]));
        to_multiset_contains(out, out[i]);
        to_multiset_contains(input, out[i]);
    }
}

/// Every selected entry is one of the entries given and passes both filters.
pub proof fn lemma_selection_members(
    all: Seq<EntryModel>,
    client_filter: Option<Seq<char>>,
    service_filter: Option<Seq<char>>,
)
    ensures
        forall|e: EntryModel| #[trigger]
            selection(all, client_filter, service_filter).contains(e) ==> all.contains(e)
                && selected(e, client_filter, service_filter),
{
    let pred = |e: EntryModel| selected(e, client_filter, service_filter);
    let chosen = all.filter(pred);
    assert forall|e: EntryModel| #[trigger] chosen.contains(e) implies all.contains(e) && selected(
        e,
        client_filter,
        service_filter,
    ) by {
        all.lemma_filter_contains_rev(pred, e);
        let i = choose|i: int| 0 <= i < chosen.len() && chosen[i] == e;
        all.lemma_filter_pred(pred, i);
    }
}

/// Two sequences in listing order that hold the same entries and agree on
/// the order within each rank are the same sequence.
proof fn lemma_same_listing(a: Seq<EntryModel>, b: Seq<EntryModel>)
    requires
        in_listing_order(a),
        in_listing_order(b),
        a.len() == b.len(),
        a.to_multiset() == b.to_multiset(),
        forall|display: Seq<char>, client: Seq<char>| #[trigger]
            with_rank(a, display, client) == with_rank(b, display, client),
    ensures
        a == b,
    decreases a.len(),
{
    broadcast use vstd::multiset::group_multiset_axioms;

    if a.len() == 0 {
        assert(a =~= b);
    } else {
        let n = a.len() as int;
        let x = a.last();
        let y = b.last();
        let a1 = a.drop_last();
        let b1 = b.drop_last();
        assert(a =~= a1.push(x));
        assert(b =~= b1.push(y));
        if !(x.service_display == y.service_display && x.client == y.client) {
            lemma_lex_total(x.service_display, y.service_display);
            lemma_lex_total(x.client, y.client);
            if entry_before(x, y) {
                assert(b.contains(y));
                to_multiset_contains(b, y);
                to_multiset_contains(a, y);
                let j = choose|j: int| 0 <= j < a.len() && a[j] == y;
                assert(!entry_before(a[n - 1], a[j]));
            } else {
                assert(entry_before(y, x));
                assert(a.contains(x));
                to_multiset_contains(a, x);
                to_multiset_contains(b, x);
                let j = choose|j: int| 0 <= j < b.len() && b[j] == x;
                assert(!entry_before(b[n - 1], b[j]));
            }
        }
        let rank = |e: EntryModel| e.service_display == x.service_display && e.client == x.client;
        a1.lemma_filter_push(x, rank);
        b1.lemma_filter_push(y, rank);
        assert(with_rank(a, x.service_display, x.client) == with_rank(
            b,
            x.service_display,
            x.client,
        ));
        assert(a1.filter(rank).push(x).last() == x);
        assert(b1.filter(rank).push(y).last() == y);
        assert(x == y);
        to_multiset_build(a1, x);
        to_multiset_build(b1, x);
        assert(a1.to_multiset() =~= a.to_multiset().remove(x));
        assert(b1.to_multiset() =~= b.to_multiset().remove(x));
        assert forall|display: Seq<char>, client: Seq<char>| #[trigger]
            with_rank(a1, display, client) == with_rank(b1, display, client) by {
            let other = |e: EntryModel| e.service_display == display && e.client == client;
            a1.lemma_filter_push(x, other);
            b1.lemma_filter_push(x, other);
            assert(with_rank(a, display, client) == with_rank(b, display, client));
            if other(x) {
                assert(a1.filter(other) =~= a1.filter(other).push(x).drop_last());
                assert(b1.filter(other) =~= b1.filter(other).push(x).drop_last());
            }
        }
        assert forall|i: int, j: int| 0 <= i < j < a1.len() implies !entry_before(
            #[trigger] a1[j],
            #[trigger] a1[i],
        ) by {
            assert(!entry_before(a[j], a[i]));
        }
        assert forall|i: int, j: int| 0 <= i < j < b1.len() implies !entry_before(
            #[trigger] b1[j],
            #[trigger] b1[i],
        ) by {
            assert(!entry_before(b[j], b[i]));
        }
        lemma_same_listing(a1, b1);
    }
}

/// A listing is fixed by what it lists: two listings of the same entries are
/// equal. So the order of a listing leaves nothing open, not even among
/// entries of equal rank.
pub proof fn lemma_listing_unique(a: Seq<EntryModel>, b: Seq<EntryModel>, input: Seq<EntryModel>)
    requires
        is_listing_of(a, input),
        is_listing_of(b, input),
    ensures
        a == b,
{
    lemma_same_listing(a, b);
}

} // verus!
