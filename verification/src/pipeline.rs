//! The appointment pipeline: filter the documents of one collection to a
//! given calendar day, sort them by (time slot, queue number) keeping the
//! original order of equal keys, and truncate to a requested count. Every
//! step is a pure function over the in-memory sequence.

use vstd::prelude::*;
use crate::json::JsonValue;
use crate::time::DateYmd;

verus! {

/// One document of the collection, as the pipeline sees it: the scheduling
/// fields read through the response envelope, and the untransformed payload
/// that is handed back to the caller.
pub struct QueueDocument {
    /// The local calendar day the document is scheduled for; `None` when the
    /// document carries no parseable timestamp.
    pub scheduled_day: Option<DateYmd>,
    /// The primary sort key; empty when the document carries none.
    pub time_slot: String,
    /// The tie-breaking sort key; 0 when the document carries none.
    pub queue_number: i64,
    /// The document as the store returned it.
    pub raw: JsonValue,
}

/// Strict lexicographic order on character sequences, by code point.
pub open spec fn lex_lt(a: Seq<char>, b: Seq<char>) -> bool
    decreases a.len(),
{
    if b.len() == 0 {
        false
    } else if a.len() == 0 {
        true
    } else if a[0] == b[0] {
        lex_lt(a.drop_first(), b.drop_first())
    } else {
        (a[0] as u32) < (b[0] as u32)
    }
}

pub proof fn lemma_lex_lt_irrefl(a: Seq<char>)
    ensures
        !lex_lt(a, a),
    decreases a.len(),
{
    if a.len() > 0 {
        lemma_lex_lt_irrefl(a.drop_first());
    }
}

pub proof fn lemma_lex_lt_trans(a: Seq<char>, b: Seq<char>, c: Seq<char>)
    requires
        lex_lt(a, b),
        lex_lt(b, c),
    ensures
        lex_lt(a, c),
    decreases a.len(),
{
    if a.len() > 0 && b.len() > 0 && c.len() > 0 {
        if a[0] == b[0] && b[0] == c[0] {
            lemma_lex_lt_trans(a.drop_first(), b.drop_first(), c.drop_first());
        }
    }
}

/// Two sequences neither of which precedes the other are equal.
pub proof fn lemma_lex_lt_connected(a: Seq<char>, b: Seq<char>)
    requires
        !lex_lt(a, b),
        !lex_lt(b, a),
    ensures
        a == b,
    decreases a.len(),
{
    if a.len() == 0 {
        assert(b.len() == 0);
        assert(a =~= b);
    } else if b.len() == 0 {
        assert(false);
    } else {
        if a[0] != b[0] {
            assert((a[0] as u32) >= (b[0] as u32));
            assert((b[0] as u32) >= (a[0] as u32));
            vstd::utf8::char_u32_cast(a[0], a[0] as u32);
            vstd::utf8::char_u32_cast(b[0], b[0] as u32);
            assert(false);
        }
        lemma_lex_lt_connected(a.drop_first(), b.drop_first());
        assert(a.len() == b.len());
        assert forall|i: int| 0 <= i < a.len() implies a[i] == b[i] by {
            if i >= 1 {
                assert(a[i] == a.drop_first()[i - 1]);
                assert(b[i] == b.drop_first()[i - 1]);
            }
        }
        assert(a =~= b);
    }
}

/// The pipeline's ordering of documents: ascending time slot, then
/// ascending queue number. A total preorder.
pub open spec fn doc_le(a: QueueDocument, b: QueueDocument) -> bool {
    lex_lt(a.time_slot@, b.time_slot@)
    || (a.time_slot@ == b.time_slot@ && a.queue_number <= b.queue_number)
}

/// Equal sort keys: such documents tie, and the sort keeps their order.
pub open spec fn same_key(a: QueueDocument, b: QueueDocument) -> bool {
    a.time_slot@ == b.time_slot@ && a.queue_number == b.queue_number
}

pub proof fn lemma_doc_le_total(a: QueueDocument, b: QueueDocument)
    ensures
        doc_le(a, b) || doc_le(b, a),
{
    if !lex_lt(a.time_slot@, b.time_slot@) && !lex_lt(b.time_slot@, a.time_slot@) {
        lemma_lex_lt_connected(a.time_slot@, b.time_slot@);
    }
}

pub proof fn lemma_doc_le_trans(a: QueueDocument, b: QueueDocument, c: QueueDocument)
    requires
        doc_le(a, b),
        doc_le(b, c),
    ensures
        doc_le(a, c),
{
    if lex_lt(a.time_slot@, b.time_slot@) && lex_lt(b.time_slot@, c.time_slot@) {
        lemma_lex_lt_trans(a.time_slot@, b.time_slot@, c.time_slot@);
    }
}

/// Lexicographic comparison of time slots, character by character.
pub fn str_lex_lt(a: &str, b: &str) -> (r: bool)
    ensures
        r == lex_lt(a@, b@),
{
    let alen = a.unicode_len();
    let blen = b.unicode_len();
    let mut i: usize = 0;
    proof {
        assert(a@.skip(0) =~= a@);
        assert(b@.skip(0) =~= b@);
    }
    while i < alen && i < blen
        invariant
            i <= alen,
            i <= blen,
            alen == a@.len(),
            blen == b@.len(),
            lex_lt(a@, b@) == lex_lt(a@.skip(i as int), b@.skip(i as int)),
        decreases alen - i,
    {
        let ca = a.get_char(i);
        let cb = b.get_char(i);
        proof {
            assert(a@.skip(i as int)[0] == a@[i as int]);
            assert(b@.skip(i as int)[0] == b@[i as int]);
            assert(a@.skip(i as int).drop_first() =~= a@.skip(i as int + 1));
            assert(b@.skip(i as int).drop_first() =~= b@.skip(i as int + 1));
        }
        if ca as u32 != cb as u32 {
            return (ca as u32) < (cb as u32);
        }
        i = i + 1;
    }
    proof {
        if i == alen {
            assert(a@.skip(i as int) =~= Seq::<char>::empty());
        } else {
            assert(b@.skip(i as int) =~= Seq::<char>::empty());
        }
    }
    i < blen
}

/// Whether `a` sorts no later than `b`.
pub fn doc_before(a: &QueueDocument, b: &QueueDocument) -> (r: bool)
    ensures
        r == doc_le(*a, *b),
{
    if a.time_slot == b.time_slot {
        proof {
            lemma_lex_lt_irrefl(a.time_slot@);
        }
        a.queue_number <= b.queue_number
    } else {
        str_lex_lt(a.time_slot.as_str(), b.time_slot.as_str())
    }
}

/// Where the stable sort puts one more document: after every document that
/// sorts no later than it.
pub open spec fn insert_sorted(t: Seq<QueueDocument>, d: QueueDocument) -> Seq<QueueDocument>
    decreases t.len(),
{
    if t.len() == 0 {
        seq![d]
    } else if doc_le(t.last(), d) {
        t.push(d)
    } else {
        insert_sorted(t.drop_last(), d).push(t.last())
    }
}

/// The stable sort of a document sequence by (time slot, queue number).
pub open spec fn sort_spec(s: Seq<QueueDocument>) -> Seq<QueueDocument>
    decreases s.len(),
{
    if s.len() == 0 {
        Seq::empty()
    } else {
        insert_sorted(sort_spec(s.drop_last()), s.last())
    }
}

/// Ascending by `doc_le`.
pub open spec fn sorted(s: Seq<QueueDocument>) -> bool {
    forall|i: int, j: int| 0 <= i <= j < s.len() ==> doc_le(#[trigger] s[i], #[trigger] s[j])
}

proof fn lemma_insert_sorted_props(t: Seq<QueueDocument>, d: QueueDocument)
    requires
        sorted(t),
    ensures
        sorted(insert_sorted(t, d)),
        insert_sorted(t, d).len() == t.len() + 1,
        insert_sorted(t, d).to_multiset() == t.to_multiset().insert(d),
        forall|k: int| 0 <= k < insert_sorted(t, d).len()
            ==> (#[trigger] insert_sorted(t, d)[k] == d || t.contains(insert_sorted(t, d)[k])),
    decreases t.len(),
{
    broadcast use vstd::seq_lib::group_to_multiset_ensures;

    let r = insert_sorted(t, d);
    if t.len() == 0 || doc_le(t.last(), d) {
        assert(r =~= t.push(d));
        assert(r.to_multiset() == t.to_multiset().insert(d));
        assert(forall|k: int| 0 <= k < t.len() ==> r[k] == #[trigger] t[k]);
        assert forall|i: int, j: int| 0 <= i <= j < r.len() implies doc_le(r[i], r[j]) by {
            if j == t.len() && i < j {
                assert(doc_le(t[i], t.last()));
                lemma_doc_le_trans(t[i], t.last(), d);
            }
        }
    } else {
        let t0 = t.drop_last();
        assert(forall|k: int| 0 <= k < t0.len() ==> t0[k] == #[trigger] t[k]);
        assert(sorted(t0));
        lemma_insert_sorted_props(t0, d);
        let inner = insert_sorted(t0, d);
        assert(r == inner.push(t.last()));
        // multiset
        assert(t =~= t0.push(t.last()));
        assert(t.to_multiset() == t0.to_multiset().insert(t.last()));
        assert(r.to_multiset() == t0.to_multiset().insert(d).insert(t.last()));
        assert(t0.to_multiset().insert(d).insert(t.last())
            =~= t0.to_multiset().insert(t.last()).insert(d));
        // membership
        assert forall|k: int| 0 <= k < r.len()
            implies (#[trigger] r[k] == d || t.contains(r[k])) by {
            if k < inner.len() {
                if inner[k] != d {
                    assert(t0.contains(inner[k]));
                    let m = choose|m: int| 0 <= m < t0.len() && t0[m] == inner[k];
                    assert(t[m] == inner[k]);
                }
            } else {
                assert(r[k] == t[t.len() - 1]);
            }
        }
        // sortedness
        lemma_doc_le_total(t.last(), d);
        assert forall|i: int, j: int| 0 <= i <= j < r.len() implies doc_le(r[i], r[j]) by {
            if j < inner.len() {
                assert(doc_le(inner[i], inner[j]));
            } else if i < j {
                assert(r[j] == t.last());
                if inner[i] == d {
                    assert(doc_le(d, t.last()));
                } else {
                    assert(t0.contains(inner[i]));
                    let m = choose|m: int| 0 <= m < t0.len() && t0[m] == inner[i];
                    assert(doc_le(t[m], t[t.len() - 1]));
                }
            }
        }
    }
}

/// What the sort yields: the same documents, ascending by `doc_le`.
pub proof fn lemma_sort_spec_props(s: Seq<QueueDocument>)
    ensures
        sorted(sort_spec(s)),
        sort_spec(s).len() == s.len(),
        sort_spec(s).to_multiset() == s.to_multiset(),
    decreases s.len(),
{
    broadcast use vstd::seq_lib::group_to_multiset_ensures;

    if s.len() == 0 {
        assert(sort_spec(s) =~= s);
        assert(s.to_multiset() =~= s.to_multiset());
    } else {
        let s0 = s.drop_last();
        lemma_sort_spec_props(s0);
        lemma_insert_sorted_props(sort_spec(s0), s.last());
        assert(s =~= s0.push(s.last()));
        assert(s.to_multiset() == s0.to_multiset().insert(s.last()));
    }
}

proof fn lemma_filter_push(
    s: Seq<QueueDocument>,
    x: QueueDocument,
    pred: spec_fn(QueueDocument) -> bool,
)
    ensures
        s.push(x).filter(pred) == (if pred(x) {
            s.filter(pred).push(x)
        } else {
            s.filter(pred)
        }),
{
    reveal(Seq::filter);
    assert(s.push(x).drop_last() =~= s);
    assert(s.push(x).last() == x);
}

proof fn lemma_insert_sorted_filter(
    t: Seq<QueueDocument>,
    d: QueueDocument,
    pred: spec_fn(QueueDocument) -> bool,
)
    requires
        forall|a: QueueDocument, b: QueueDocument|
            #[trigger] pred(a) && #[trigger] pred(b) ==> same_key(a, b),
    ensures
        insert_sorted(t, d).filter(pred) == (if pred(d) {
            t.filter(pred).push(d)
        } else {
            t.filter(pred)
        }),
    decreases t.len(),
{
    if t.len() == 0 {
        assert(insert_sorted(t, d) =~= t.push(d));
        lemma_filter_push(t, d, pred);
    } else if doc_le(t.last(), d) {
        lemma_filter_push(t, d, pred);
    } else {
        let t0 = t.drop_last();
        let inner = insert_sorted(t0, d);
        lemma_insert_sorted_filter(t0, d, pred);
        lemma_filter_push(inner, t.last(), pred);
        lemma_filter_push(t0, t.last(), pred);
        assert(t =~= t0.push(t.last()));
        if pred(d) && pred(t.last()) {
            assert(same_key(t.last(), d));
            assert(doc_le(t.last(), d));
            assert(false);
        }
    }
}

/// Stability: for any predicate that holds only of documents of one sort
/// key, the sorted sequence lists the documents it selects in their
/// original order.
pub proof fn lemma_sort_stable(s: Seq<QueueDocument>, pred: spec_fn(QueueDocument) -> bool)
    requires
        forall|a: QueueDocument, b: QueueDocument|
            #[trigger] pred(a) && #[trigger] pred(b) ==> same_key(a, b),
    ensures
        sort_spec(s).filter(pred) == s.filter(pred),
    decreases s.len(),
{
    if s.len() == 0 {
        assert(sort_spec(s) =~= s);
    } else {
        let s0 = s.drop_last();
        lemma_sort_stable(s0, pred);
        lemma_insert_sorted_filter(sort_spec(s0), s.last(), pred);
        lemma_filter_push(s0, s.last(), pred);
        assert(s =~= s0.push(s.last()));
    }
}

/// Whether a document is scheduled for `today`: it carries a parseable
/// timestamp whose local calendar day equals `today`.
pub open spec fn matches_day(d: QueueDocument, today: DateYmd) -> bool {
    d.scheduled_day == Some(today)
}

/// The documents scheduled for `today`, in their original order.
pub open spec fn day_filter(s: Seq<QueueDocument>, today: DateYmd) -> Seq<QueueDocument> {
    s.filter(|d: QueueDocument| matches_day(d, today))
}

/// The first `amount` documents, or all of them when fewer.
pub open spec fn limit_spec(s: Seq<QueueDocument>, amount: int) -> Seq<QueueDocument> {
    if amount < 0 {
        Seq::empty()
    } else if amount < s.len() {
        s.take(amount)
    } else {
        s
    }
}

/// What one pipeline pass yields for a given day: today's documents,
/// stably sorted, truncated to `amount`.
pub open spec fn select_spec(s: Seq<QueueDocument>, amount: int, today: DateYmd)
    -> Seq<QueueDocument> {
    limit_spec(sort_spec(day_filter(s, today)), amount)
}

proof fn lemma_day_filter_push(s: Seq<QueueDocument>, x: QueueDocument, today: DateYmd)
    ensures
        day_filter(s.push(x), today) == (if matches_day(x, today) {
            day_filter(s, today).push(x)
        } else {
            day_filter(s, today)
        }),
{
    reveal(Seq::filter);
    assert(s.push(x).drop_last() =~= s);
    assert(s.push(x).last() == x);
}

proof fn lemma_day_filter_empty(today: DateYmd)
    ensures
        day_filter(Seq::empty(), today) == Seq::<QueueDocument>::empty(),
{
    reveal(Seq::filter);
}

/// The filter step: keep exactly the documents scheduled for `today`,
/// in their original order. A document with no parseable timestamp is
/// dropped, never an error.
pub fn filter_today(docs: Vec<QueueDocument>, today: DateYmd) -> (r: Vec<QueueDocument>)
    ensures
        r@ == day_filter(docs@, today),
{
    let ghost orig = docs@;
    let mut rest = docs;
    let mut out: Vec<QueueDocument> = Vec::new();
    proof {
        lemma_day_filter_empty(today);
        assert(orig.take(0) =~= Seq::<QueueDocument>::empty());
        assert(orig.skip(0) =~= orig);
    }
    while rest.len() > 0
        invariant
            rest@.len() <= orig.len(),
            rest@ == orig.skip(orig.len() - rest@.len()),
            out@ == day_filter(orig.take(orig.len() - rest@.len()), today),
        decreases rest@.len(),
    {
        let ghost i = orig.len() - rest@.len();
        proof {
            assert(rest@[0] == orig[i]);
            assert(rest@.remove(0) =~= orig.skip(i + 1));
            assert(orig.take(i + 1).drop_last() =~= orig.take(i));
            assert(orig.take(i + 1).last() == orig[i]);
            assert(orig.take(i).push(orig[i]) =~= orig.take(i + 1));
            lemma_day_filter_push(orig.take(i), orig[i], today);
        }
        let d = rest.remove(0);
        let keep = match d.scheduled_day {
            Some(day) => day == today,
            None => false,
        };
        if keep {
            out.push(d);
        }
    }
    proof {
        assert(orig.take(orig.len() as int) =~= orig);
    }
    out
}

fn insert_doc(out: &mut Vec<QueueDocument>, d: QueueDocument)
    ensures
        final(out)@ == insert_sorted(old(out)@, d),
{
    let ghost t = out@;
    let mut j: usize = out.len();
    proof {
        assert(t.take(t.len() as int) =~= t);
        assert(t.skip(t.len() as int) =~= Seq::<QueueDocument>::empty());
        assert(insert_sorted(t, d) =~= insert_sorted(t.take(t.len() as int), d)
            + t.skip(t.len() as int));
    }
    while j > 0 && !doc_before(&out[j - 1], &d)
        invariant
            j <= t.len(),
            out@ == t,
            insert_sorted(t, d) == insert_sorted(t.take(j as int), d) + t.skip(j as int),
        decreases j,
    {
        proof {
            assert(t.take(j as int).drop_last() =~= t.take(j as int - 1));
            assert(t.take(j as int).last() == t[j as int - 1]);
            assert(insert_sorted(t.take(j as int - 1), d).push(t[j as int - 1])
                + t.skip(j as int) =~= insert_sorted(t.take(j as int - 1), d)
                + t.skip(j as int - 1));
        }
        j = j - 1;
    }
    proof {
        if j == 0 {
            assert(t.take(0) =~= Seq::<QueueDocument>::empty());
            assert(insert_sorted(t.take(0), d) =~= seq![d]);
            assert(seq![d] + t.skip(0) =~= t.insert(0, d));
        } else {
            assert(t.take(j as int).last() == t[j as int - 1]);
            assert(insert_sorted(t.take(j as int), d) == t.take(j as int).push(d));
            assert(t.take(j as int).push(d) + t.skip(j as int) =~= t.insert(j as int, d));
        }
    }
    out.insert(j, d);
}

/// The ordering step: sort by ascending time slot, then ascending queue
/// number, keeping the original relative order of documents with equal
/// keys.
pub fn sort_documents(docs: Vec<QueueDocument>) -> (r: Vec<QueueDocument>)
    ensures
        r@ == sort_spec(docs@),
{
    let ghost orig = docs@;
    let mut rest = docs;
    let mut out: Vec<QueueDocument> = Vec::new();
    proof {
        assert(orig.take(0) =~= Seq::<QueueDocument>::empty());
        assert(orig.skip(0) =~= orig);
    }
    while rest.len() > 0
        invariant
            rest@.len() <= orig.len(),
            rest@ == orig.skip(orig.len() - rest@.len()),
            out@ == sort_spec(orig.take(orig.len() - rest@.len())),
        decreases rest@.len(),
    {
        let ghost i = orig.len() - rest@.len();
        proof {
            assert(rest@[0] == orig[i]);
            assert(rest@.remove(0) =~= orig.skip(i + 1));
            assert(orig.take(i + 1).drop_last() =~= orig.take(i));
            assert(orig.take(i + 1).last() == orig[i]);
        }
        let d = rest.remove(0);
        insert_doc(&mut out, d);
    }
    proof {
        assert(orig.take(orig.len() as int) =~= orig);
    }
    out
}

/// The limit step: the first `amount` documents of `docs`, all of them
/// when `amount` exceeds their number. Never an error, never padding.
pub fn limit(docs: Vec<QueueDocument>, amount: u64) -> (r: Vec<QueueDocument>)
    ensures
        r@ == limit_spec(docs@, amount as int),
{
    let ghost orig = docs@;
    let mut rest = docs;
    let mut out: Vec<QueueDocument> = Vec::new();
    proof {
        assert(orig.take(0) =~= Seq::<QueueDocument>::empty());
        assert(orig.skip(0) =~= orig);
    }
    while (out.len() as u64) < amount && rest.len() > 0
        invariant
            out@.len() + rest@.len() == orig.len(),
            out@.len() as u64 <= amount,
            rest@ == orig.skip(out@.len() as int),
            out@ == orig.take(out@.len() as int),
        decreases rest@.len(),
    {
        let ghost i = out@.len() as int;
        proof {
            assert(rest@[0] == orig[i]);
            assert(rest@.remove(0) =~= orig.skip(i + 1));
            assert(orig.take(i).push(orig[i]) =~= orig.take(i + 1));
        }
        let d = rest.remove(0);
        out.push(d);
    }
    proof {
        if rest@.len() == 0 {
            assert(orig.take(out@.len() as int) =~= orig);
        }
    }
    out
}

/// One pipeline pass for a given calendar day: filter to `today`, sort,
/// truncate to `amount`. The documents come back untransformed, only
/// filtered, reordered and truncated.
pub fn select(docs: Vec<QueueDocument>, amount: u64, today: DateYmd) -> (r: Vec<QueueDocument>)
    ensures
        r@ == select_spec(docs@, amount as int, today),
{
    let filtered = filter_today(docs, today);
    let sorted_docs = sort_documents(filtered);
    limit(sorted_docs, amount)
}

/// One pipeline pass for the current local day, read from the clock once
/// per call. Which day the clock shows cannot be promised; the result is
/// exactly one pipeline pass for some day.
pub fn select_today(docs: Vec<QueueDocument>, amount: u64) -> (r: Vec<QueueDocument>)
    ensures
        exists|t: DateYmd| r@ == select_spec(docs@, amount as int, t),
{
    let today = crate::time::local_today();
    let r = select(docs, amount, today);
    proof {
        assert(r@ == select_spec(docs@, amount as int, today));
    }
    r
}

/// Everything the filter step keeps is scheduled for the requested day;
/// in particular a document with no parseable timestamp is never kept.
pub proof fn lemma_day_filter_only_today(s: Seq<QueueDocument>, today: DateYmd)
    ensures
        forall|i: int| 0 <= i < day_filter(s, today).len()
            ==> matches_day(#[trigger] day_filter(s, today)[i], today),
{
    broadcast use vstd::seq_lib::group_filter_ensures;

    assert(forall|i: int| 0 <= i < day_filter(s, today).len()
        ==> matches_day(#[trigger] day_filter(s, today)[i], today));
}

/// Every document scheduled for the requested day is kept by the filter
/// step, whatever its time-of-day or position.
pub proof fn lemma_day_filter_retains(s: Seq<QueueDocument>, today: DateYmd)
    ensures
        forall|i: int| 0 <= i < s.len() && matches_day(#[trigger] s[i], today)
            ==> day_filter(s, today).contains(s[i]),
{
    broadcast use vstd::seq_lib::group_filter_ensures;

    assert(forall|i: int| 0 <= i < s.len() && matches_day(#[trigger] s[i], today)
        ==> day_filter(s, today).contains(s[i]));
}

/// Requesting zero documents yields the empty sequence, never an error.
pub proof fn lemma_select_zero(s: Seq<QueueDocument>, today: DateYmd)
    ensures
        select_spec(s, 0, today) == Seq::<QueueDocument>::empty(),
{
    lemma_sort_spec_props(day_filter(s, today));
    let f = sort_spec(day_filter(s, today));
    if 0 < f.len() {
        assert(f.take(0) =~= Seq::<QueueDocument>::empty());
    } else {
        assert(f =~= Seq::<QueueDocument>::empty());
    }
}

/// Requesting at least as many documents as match yields exactly all
/// matching documents in sorted order — no padding.
pub proof fn lemma_select_all(s: Seq<QueueDocument>, amount: int, today: DateYmd)
    requires
        amount >= day_filter(s, today).len(),
    ensures
        select_spec(s, amount, today) == sort_spec(day_filter(s, today)),
{
    lemma_sort_spec_props(day_filter(s, today));
}

/// Nothing scheduled for another day reaches the result, wherever the
/// collection order would have placed it.
pub proof fn lemma_select_only_today(s: Seq<QueueDocument>, amount: int, today: DateYmd)
    ensures
        forall|i: int| 0 <= i < select_spec(s, amount, today).len()
            ==> matches_day(#[trigger] select_spec(s, amount, today)[i], today),
{
    broadcast use vstd::seq_lib::group_to_multiset_ensures;

    let f = day_filter(s, today);
    let srt = sort_spec(f);
    let sel = select_spec(s, amount, today);
    lemma_sort_spec_props(f);
    lemma_day_filter_only_today(s, today);
    assert forall|i: int| 0 <= i < sel.len()
        implies matches_day(#[trigger] sel[i], today) by {
        if 0 <= amount < srt.len() {
            assert(sel =~= srt.take(amount));
        }
        assert(sel[i] == srt[i]);
        assert(srt.contains(srt[i]));
        assert(srt.to_multiset().count(srt[i]) > 0);
        assert(f.to_multiset().count(srt[i]) > 0);
        assert(f.contains(srt[i]));
        let m = choose|m: int| 0 <= m < f.len() && f[m] == srt[i];
        assert(matches_day(f[m], today));
    }
}

} // verus!
