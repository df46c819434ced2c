//! Properties of the bucket protocol, proved over its specification.
use vstd::prelude::*;
use crate::bucket::{
    BucketState, EntryView, OutcomeView, StoreModel, commit_from, debit_entry, process,
    process_from, refresh_entry, refreshed, reserved,
};

verus! {

/// The outcome of a batch of one entry `e`: denied with the refreshed state
/// when that state lacks tokens, otherwise admitted with the tokens taken out.
pub open spec fn single_outcome(m: StoreModel, e: EntryView, now: i64) -> (StoreModel, OutcomeView) {
    let m2 = refresh_entry(m, e, now);
    let s = m2[e.storage_key];
    if s.tokens < e.n {
        (m2, OutcomeView::Denied {
            storage_key: e.storage_key,
            interval_ms: e.interval_ms,
            capacity: e.capacity,
            current_tokens: s.tokens,
            last_fill_at: s.last_fill_at,
        })
    } else {
        (debit_entry(m2, e), OutcomeView::Admitted)
    }
}

/// A batch of one entry is evaluated by a single refill decision and check.
pub proof fn lemma_single(m: StoreModel, e: EntryView, now: i64)
    ensures
        process(m, seq![e], now) == single_outcome(m, e, now),
{
    reveal_with_fuel(process_from, 2);
    reveal_with_fuel(commit_from, 2);
}

/// Repeated single-entry consumptions of `e` at the instants `times`, in order.
/// Successive `MemoryLimiter::consume_one` calls with one valid request form
/// such a series: each call's contract is one step of it, with `e` the
/// request's entry.
pub open spec fn consume_series(m: StoreModel, e: EntryView, times: Seq<i64>) -> StoreModel
    decreases times.len(),
{
    if times.len() == 0 {
        m
    } else {
        process(consume_series(m, e, times.drop_last()), seq![e], times.last()).0
    }
}

/// Capacity bound: on an untouched bucket, consumptions of one token each,
/// all less than one interval after the first, are admitted while tokens
/// last: the first `capacity` are admitted and every later one is denied
/// reporting no tokens. After `j` of them the bucket holds
/// `capacity - min(j, capacity)` tokens, filled at the first instant.
pub proof fn lemma_capacity_bound(m: StoreModel, e: EntryView, times: Seq<i64>)
    requires
        !m.contains_key(e.storage_key),
        e.n == 1,
        1 <= e.capacity,
        1 <= times.len(),
        forall|i: int| 0 <= i < times.len() ==> #[trigger] times[i] - times[0] < e.interval_ms,
    ensures
        consume_series(m, e, times).contains_key(e.storage_key),
        consume_series(m, e, times)[e.storage_key] == (BucketState {
            tokens: if times.len() < e.capacity { (e.capacity - times.len()) as u32 } else { 0 },
            last_fill_at: times[0],
        }),
        forall|j: int| 0 <= j < times.len() && j < e.capacity ==> (#[trigger] process(
            consume_series(m, e, times.take(j)), seq![e], times[j])).1 is Admitted,
        forall|j: int| e.capacity <= j < times.len() ==> (#[trigger] process(
            consume_series(m, e, times.take(j)), seq![e], times[j])).1 == (OutcomeView::Denied {
            storage_key: e.storage_key,
            interval_ms: e.interval_ms,
            capacity: e.capacity,
            current_tokens: 0,
            last_fill_at: times[0],
        }),
    decreases times.len(),
{
    let prev = times.drop_last();
    let t = times.last();
    if times.len() == 1 {
        assert(prev =~= Seq::<i64>::empty());
        lemma_single(m, e, t);
        assert(times.take(0) =~= prev);
    } else {
        assert forall|i: int| 0 <= i < prev.len() implies #[trigger] prev[i] - prev[0] < e.interval_ms by {
            assert(prev[i] == times[i]);
        }
        lemma_capacity_bound(m, e, prev);
        let mp = consume_series(m, e, prev);
        lemma_single(mp, e, t);
        assert(times[times.len() - 1] - times[0] < e.interval_ms);
        if prev.len() >= e.capacity {
            assert(refresh_entry(mp, e, t) =~= mp);
        }
        assert forall|j: int| 0 <= j < times.len() && j < e.capacity implies (#[trigger] process(
            consume_series(m, e, times.take(j)), seq![e], times[j])).1 is Admitted by {
            if j < prev.len() {
                assert(times.take(j) =~= prev.take(j));
                assert(process(consume_series(m, e, prev.take(j)), seq![e], prev[j]).1 is Admitted);
            } else {
                assert(times.take(j) =~= prev);
            }
        }
        assert forall|j: int| e.capacity <= j < times.len() implies (#[trigger] process(
            consume_series(m, e, times.take(j)), seq![e], times[j])).1 == (OutcomeView::Denied {
            storage_key: e.storage_key,
            interval_ms: e.interval_ms,
            capacity: e.capacity,
            current_tokens: 0,
            last_fill_at: times[0],
        }) by {
            if j < prev.len() {
                assert(times.take(j) =~= prev.take(j));
                assert(process(consume_series(m, e, prev.take(j)), seq![e], prev[j]).1 is Denied);
            } else {
                assert(times.take(j) =~= prev);
            }
        }
    }
}

/// The consumption after an exhausted series of single tokens, still within
/// the interval, is denied and reports no tokens left.
pub proof fn lemma_capacity_exhausted(m: StoreModel, e: EntryView, times: Seq<i64>, now: i64)
    requires
        !m.contains_key(e.storage_key),
        e.n == 1,
        times.len() == e.capacity,
        1 <= e.capacity,
        forall|i: int| 0 <= i < times.len() ==> #[trigger] times[i] - times[0] < e.interval_ms,
        now - times[0] < e.interval_ms,
    ensures
        process(consume_series(m, e, times), seq![e], now).1 == (OutcomeView::Denied {
            storage_key: e.storage_key,
            interval_ms: e.interval_ms,
            capacity: e.capacity,
            current_tokens: 0,
            last_fill_at: times[0],
        }),
{
    lemma_capacity_bound(m, e, times);
    lemma_single(consume_series(m, e, times), e, now);
}

/// Fixed-window refill: before the interval has elapsed since the last fill,
/// a request for more tokens than are left is denied and the bucket stays as
/// it was; once it has elapsed, the bucket is refilled and a request of at
/// most `capacity` tokens is admitted, leaving `capacity - n`.
pub proof fn lemma_fixed_window_refill(m: StoreModel, e: EntryView, now: i64)
    requires
        m.contains_key(e.storage_key),
    ensures
        now - m[e.storage_key].last_fill_at < e.interval_ms && m[e.storage_key].tokens < e.n ==> {
            &&& process(m, seq![e], now).1 is Denied
            &&& process(m, seq![e], now).0 == m
        },
        now - m[e.storage_key].last_fill_at >= e.interval_ms && e.n <= e.capacity ==> {
            &&& process(m, seq![e], now).1 is Admitted
            &&& process(m, seq![e], now).0[e.storage_key] == (BucketState {
                tokens: (e.capacity - e.n) as u32,
                last_fill_at: now,
            })
        },
{
    lemma_single(m, e, now);
    let s = m[e.storage_key];
    if now - s.last_fill_at < e.interval_ms {
        assert(refresh_entry(m, e, now) =~= m);
    }
}

/// Batch atomicity: with `a` out of tokens within its interval and `b` never
/// touched, the batch is denied naming `a` in either order. After `[a, b]`
/// the store is as it was; after `[b, a]` the bucket of `b` has been created
/// full and not debited.
pub proof fn lemma_batch_atomicity(m: StoreModel, a: EntryView, b: EntryView, now: i64)
    requires
        m.contains_key(a.storage_key),
        now - m[a.storage_key].last_fill_at < a.interval_ms,
        m[a.storage_key].tokens < a.n,
        !m.contains_key(b.storage_key),
        a.storage_key != b.storage_key,
        1 <= b.n <= b.capacity,
    ensures
        process(m, seq![a, b], now).1 == (OutcomeView::Denied {
            storage_key: a.storage_key,
            interval_ms: a.interval_ms,
            capacity: a.capacity,
            current_tokens: m[a.storage_key].tokens,
            last_fill_at: m[a.storage_key].last_fill_at,
        }),
        process(m, seq![a, b], now).0 == m,
        process(m, seq![b, a], now).1 == (OutcomeView::Denied {
            storage_key: a.storage_key,
            interval_ms: a.interval_ms,
            capacity: a.capacity,
            current_tokens: m[a.storage_key].tokens,
            last_fill_at: m[a.storage_key].last_fill_at,
        }),
        process(m, seq![b, a], now).0 == m.insert(
            b.storage_key,
            BucketState { tokens: b.capacity, last_fill_at: now },
        ),
{
    reveal_with_fuel(process_from, 3);
    reveal_with_fuel(reserved, 2);
    let ab = seq![a, b];
    let ba = seq![b, a];
    assert(ab[0] == a);
    assert(ba[0] == b && ba[1] == a);
    assert(refresh_entry(m, a, now) =~= m);
    let mb = refresh_entry(m, b, now);
    assert(mb[a.storage_key] == m[a.storage_key]);
    assert(refresh_entry(mb, a, now) =~= mb);
}

/// Denial round trip: the state that a denial reports is the state persisted
/// for the denied resource, and the resource is one of the batch, with the
/// interval and capacity it was requested with.
pub proof fn lemma_denial_round_trip(m: StoreModel, es: Seq<EntryView>, now: i64)
    ensures
        process(m, es, now).1 matches OutcomeView::Denied {
            storage_key,
            interval_ms,
            capacity,
            current_tokens,
            last_fill_at,
        } ==> {
            &&& process(m, es, now).0.contains_key(storage_key)
            &&& process(m, es, now).0[storage_key] == (BucketState {
                tokens: current_tokens,
                last_fill_at,
            })
            &&& exists|i: int| 0 <= i < es.len() && (#[trigger] es[i]).storage_key == storage_key
                && es[i].interval_ms == interval_ms && es[i].capacity == capacity
        },
{
    lemma_denial_from(m, es, 0, now);
}

proof fn lemma_denial_from(m: StoreModel, es: Seq<EntryView>, i: int, now: i64)
    requires
        0 <= i,
    ensures
        process_from(m, es, i, now).1 matches OutcomeView::Denied {
            storage_key,
            interval_ms,
            capacity,
            current_tokens,
            last_fill_at,
        } ==> {
            &&& process_from(m, es, i, now).0.contains_key(storage_key)
            &&& process_from(m, es, i, now).0[storage_key] == (BucketState {
                tokens: current_tokens,
                last_fill_at,
            })
            &&& exists|j: int| i <= j < es.len() && (#[trigger] es[j]).storage_key == storage_key
                && es[j].interval_ms == interval_ms && es[j].capacity == capacity
        },
    decreases es.len() - i,
{
    if i < es.len() {
        let m2 = refresh_entry(m, es[i], now);
        if m2[es[i].storage_key].tokens >= es[i].n + reserved(es, i, es[i].storage_key) {
            lemma_denial_from(m2, es, i + 1, now);
        }
    }
}

/// A key that no entry of the batch names keeps its state.
pub proof fn lemma_untouched_kept(m: StoreModel, es: Seq<EntryView>, now: i64, k: Seq<char>)
    requires
        forall|i: int| 0 <= i < es.len() ==> (#[trigger] es[i]).storage_key != k,
    ensures
        process(m, es, now).0.get(k) == m.get(k),
{
    lemma_untouched_from(m, es, 0, now, k);
}

proof fn lemma_untouched_commit(m: StoreModel, es: Seq<EntryView>, i: int, k: Seq<char>)
    requires
        forall|j: int| 0 <= j < es.len() ==> (#[trigger] es[j]).storage_key != k,
    ensures
        commit_from(m, es, i).get(k) == m.get(k),
    decreases es.len() - i,
{
    if 0 <= i < es.len() {
        lemma_untouched_commit(debit_entry(m, es[i]), es, i + 1, k);
    }
}

proof fn lemma_untouched_from(m: StoreModel, es: Seq<EntryView>, i: int, now: i64, k: Seq<char>)
    requires
        forall|j: int| 0 <= j < es.len() ==> (#[trigger] es[j]).storage_key != k,
    ensures
        process_from(m, es, i, now).0.get(k) == m.get(k),
    decreases es.len() - i,
{
    if i < 0 || i >= es.len() {
        lemma_untouched_commit(m, es, 0, k);
    } else {
        let m2 = refresh_entry(m, es[i], now);
        if m2[es[i].storage_key].tokens >= es[i].n + reserved(es, i, es[i].storage_key) {
            lemma_untouched_from(m2, es, i + 1, now, k);
        }
    }
}

/// After any attempt, admitted or denied, the bucket of the batch's first
/// resource is held by the store.
pub proof fn lemma_attempt_persists(m: StoreModel, es: Seq<EntryView>, now: i64)
    requires
        es.len() >= 1,
    ensures
        process(m, es, now).0.contains_key(es[0].storage_key),
{
    let m2 = refresh_entry(m, es[0], now);
    if m2[es[0].storage_key].tokens >= es[0].n + reserved(es, 0, es[0].storage_key) {
        lemma_keys_kept_from(m2, es, 1, now, es[0].storage_key);
    }
}

proof fn lemma_keys_kept_commit(m: StoreModel, es: Seq<EntryView>, i: int, k: Seq<char>)
    requires
        m.contains_key(k),
    ensures
        commit_from(m, es, i).contains_key(k),
    decreases es.len() - i,
{
    if 0 <= i < es.len() {
        lemma_keys_kept_commit(debit_entry(m, es[i]), es, i + 1, k);
    }
}

proof fn lemma_keys_kept_from(m: StoreModel, es: Seq<EntryView>, i: int, now: i64, k: Seq<char>)
    requires
        m.contains_key(k),
    ensures
        process_from(m, es, i, now).0.contains_key(k),
    decreases es.len() - i,
{
    if i < 0 || i >= es.len() {
        lemma_keys_kept_commit(m, es, 0, k);
    } else {
        let m2 = refresh_entry(m, es[i], now);
        if m2[es[i].storage_key].tokens >= es[i].n + reserved(es, i, es[i].storage_key) {
            lemma_keys_kept_from(m2, es, i + 1, now, k);
        }
    }
}

/// The store after only the refill decisions of the first `i` entries.
pub open spec fn refresh_prefix(m: StoreModel, es: Seq<EntryView>, i: int, now: i64) -> StoreModel
    decreases i,
{
    if i <= 0 || i > es.len() {
        m
    } else {
        refresh_entry(refresh_prefix(m, es, i - 1, now), es[i - 1], now)
    }
}

/// Every bucket of the first `i` entries is held, and holds at least what
/// those entries asked of it.
pub open spec fn covers(m: StoreModel, es: Seq<EntryView>, i: int) -> bool {
    &&& forall|k: Seq<char>| #[trigger] m.contains_key(k) ==> reserved(es, i, k) <= m[k].tokens
    &&& forall|j: int| 0 <= j < i ==> m.contains_key((#[trigger] es[j]).storage_key)
}

/// `d` holds the buckets of `r` less what the first `j` entries asked of them.
pub open spec fn debited_by(d: StoreModel, r: StoreModel, es: Seq<EntryView>, j: int) -> bool {
    forall|k: Seq<char>| #[trigger] r.contains_key(k) ==> d.contains_key(k) && d[k] == (BucketState {
        tokens: (r[k].tokens - reserved(es, j, k)) as u32,
        last_fill_at: r[k].last_fill_at,
    })
}

proof fn lemma_reserved_mono(es: Seq<EntryView>, a: int, b: int, k: Seq<char>)
    requires
        0 <= a <= b <= es.len(),
    ensures
        reserved(es, a, k) <= reserved(es, b, k),
    decreases b - a,
{
    if a < b {
        lemma_reserved_mono(es, a, b - 1, k);
    }
}

proof fn lemma_commit_exact(r: StoreModel, es: Seq<EntryView>, j: int, d: StoreModel)
    requires
        0 <= j <= es.len(),
        covers(r, es, es.len() as int),
        debited_by(d, r, es, j),
    ensures
        debited_by(commit_from(d, es, j), r, es, es.len() as int),
    decreases es.len() - j,
{
    if j < es.len() {
        let e = es[j];
        let k = e.storage_key;
        assert(r.contains_key(k));
        lemma_reserved_mono(es, j + 1, es.len() as int, k);
        assert(reserved(es, j + 1, k) == reserved(es, j, k) + e.n);
        let d2 = debit_entry(d, e);
        assert forall|k2: Seq<char>| #[trigger] r.contains_key(k2) implies d2.contains_key(k2) && d2[k2] == (
        BucketState {
            tokens: (r[k2].tokens - reserved(es, j + 1, k2)) as u32,
            last_fill_at: r[k2].last_fill_at,
        }) by {
            if k2 != k {
                assert(reserved(es, j + 1, k2) == reserved(es, j, k2));
            } else {
                assert(reserved(es, es.len() as int, k) <= r[k].tokens);
                lemma_reserved_mono(es, 0, j, k);
                assert(d[k].tokens == r[k].tokens - reserved(es, j, k));
                assert(d[k].tokens >= e.n);
            }
        }
        lemma_commit_exact(r, es, j + 1, d2);
    }
}

/// Entry `j` finds enough tokens once the refill decisions up to it are made,
/// counting what earlier entries asked of the same bucket.
pub open spec fn passes(m: StoreModel, es: Seq<EntryView>, j: int, now: i64) -> bool {
    refresh_prefix(m, es, j + 1, now)[es[j].storage_key].tokens >= es[j].n + reserved(
        es,
        j,
        es[j].storage_key,
    )
}

/// Entry `d` is the first that does not pass, and `o` reports it with the
/// state its bucket was left in.
pub open spec fn denied_at(m: StoreModel, es: Seq<EntryView>, d: int, now: i64, o: OutcomeView) -> bool {
    let r = refresh_prefix(m, es, d + 1, now);
    let k = es[d].storage_key;
    &&& 0 <= d < es.len()
    &&& !passes(m, es, d, now)
    &&& forall|j: int| 0 <= j < d ==> #[trigger] passes(m, es, j, now)
    &&& o == OutcomeView::Denied {
        storage_key: k,
        interval_ms: es[d].interval_ms,
        capacity: es[d].capacity,
        current_tokens: r[k].tokens,
        last_fill_at: r[k].last_fill_at,
    }
}

proof fn lemma_refresh_prefix_untouched(m: StoreModel, es: Seq<EntryView>, i: int, now: i64, k: Seq<char>)
    requires
        0 <= i <= es.len(),
        forall|j: int| 0 <= j < i ==> (#[trigger] es[j]).storage_key != k,
    ensures
        refresh_prefix(m, es, i, now).get(k) == m.get(k),
    decreases i,
{
    if i > 0 {
        lemma_refresh_prefix_untouched(m, es, i - 1, now, k);
    }
}

proof fn lemma_process_split(m0: StoreModel, es: Seq<EntryView>, i: int, mi: StoreModel, now: i64)
    requires
        0 <= i <= es.len(),
        mi == refresh_prefix(m0, es, i, now),
        covers(mi, es, i),
        forall|j: int| 0 <= j < i ==> #[trigger] passes(m0, es, j, now),
    ensures
        process_from(mi, es, i, now).1 is Admitted ==> {
            &&& covers(refresh_prefix(m0, es, es.len() as int, now), es, es.len() as int)
            &&& process_from(mi, es, i, now).0 == commit_from(
                refresh_prefix(m0, es, es.len() as int, now),
                es,
                0,
            )
        },
        process_from(mi, es, i, now).1 is Denied ==> exists|d: int|
            #[trigger] denied_at(m0, es, d, now, process_from(mi, es, i, now).1)
                && process_from(mi, es, i, now).0 == refresh_prefix(m0, es, d + 1, now),
    decreases es.len() - i,
{
    if i < es.len() {
        let e = es[i];
        let m2 = refresh_entry(mi, e, now);
        assert(m2 == refresh_prefix(m0, es, i + 1, now));
        if m2[e.storage_key].tokens >= e.n + reserved(es, i, e.storage_key) {
            assert forall|k: Seq<char>| #[trigger] m2.contains_key(k) implies reserved(es, i + 1, k)
                <= m2[k].tokens by {
                if k != e.storage_key {
                    assert(reserved(es, i + 1, k) == reserved(es, i, k));
                    assert(mi.contains_key(k));
                }
            }
            assert forall|j: int| 0 <= j < i + 1 implies m2.contains_key((#[trigger] es[j]).storage_key) by {
                if j < i {
                    assert(mi.contains_key(es[j].storage_key));
                }
            }
            assert(passes(m0, es, i, now));
            assert forall|j: int| 0 <= j < i + 1 implies #[trigger] passes(m0, es, j, now) by {}
            lemma_process_split(m0, es, i + 1, m2, now);
        } else {
            assert(denied_at(m0, es, i, now, process_from(mi, es, i, now).1));
        }
    }
}

/// All or nothing: a denied batch names its first entry without enough
/// tokens, every earlier entry having had enough, reports the state that
/// entry's bucket was left in, and leaves the store with the refill decisions
/// of the entries up to it and nothing taken, so buckets named only after it
/// keep their state; an admitted batch
/// takes from each bucket exactly what its entries asked, which the bucket
/// held after the refill decisions.
pub proof fn lemma_all_or_nothing(m: StoreModel, es: Seq<EntryView>, now: i64)
    ensures
        process(m, es, now).1 is Denied ==> exists|d: int|
            #[trigger] denied_at(m, es, d, now, process(m, es, now).1)
                && process(m, es, now).0 == refresh_prefix(m, es, d + 1, now)
                && forall|k: Seq<char>|
                (forall|j: int| 0 <= j <= d ==> (#[trigger] es[j]).storage_key != k)
                    ==> #[trigger] process(m, es, now).0.get(k) == m.get(k),
        process(m, es, now).1 is Admitted ==> forall|k: Seq<char>|
            #[trigger] refresh_prefix(m, es, es.len() as int, now).contains_key(k) ==> {
                let r = refresh_prefix(m, es, es.len() as int, now);
                &&& reserved(es, es.len() as int, k) <= r[k].tokens
                &&& process(m, es, now).0.contains_key(k)
                &&& process(m, es, now).0[k] == (BucketState {
                    tokens: (r[k].tokens - reserved(es, es.len() as int, k)) as u32,
                    last_fill_at: r[k].last_fill_at,
                })
            },
{
    lemma_process_split(m, es, 0, m, now);
    if process(m, es, now).1 is Denied {
        let d = choose|d: int|
            #[trigger] denied_at(m, es, d, now, process(m, es, now).1)
                && process(m, es, now).0 == refresh_prefix(m, es, d + 1, now);
        assert forall|k: Seq<char>|
            (forall|j: int| 0 <= j <= d ==> (#[trigger] es[j]).storage_key != k)
                implies #[trigger] process(m, es, now).0.get(k) == m.get(k) by {
            lemma_refresh_prefix_untouched(m, es, d + 1, now, k);
        }
    }
    if process(m, es, now).1 is Admitted {
        let r = refresh_prefix(m, es, es.len() as int, now);
        assert(debited_by(r, r, es, 0));
        lemma_commit_exact(r, es, 0, r);
    }
}

/// No two entries of the batch name the same bucket.
pub open spec fn distinct_keys(es: Seq<EntryView>) -> bool {
    forall|i: int, j: int| 0 <= i < j < es.len() ==> es[i].storage_key != es[j].storage_key
}

/// The state entry `i`'s bucket is refilled to when the batch is evaluated.
pub open spec fn refilled_state(m: StoreModel, e: EntryView, now: i64) -> BucketState {
    refreshed(m.get(e.storage_key), e.interval_ms, e.capacity, now)
}

proof fn lemma_reserved_zero(es: Seq<EntryView>, i: int, k: Seq<char>)
    requires
        0 <= i <= es.len(),
        forall|j: int| 0 <= j < i ==> (#[trigger] es[j]).storage_key != k,
    ensures
        reserved(es, i, k) == 0,
    decreases i,
{
    if i > 0 {
        lemma_reserved_zero(es, i - 1, k);
    }
}

proof fn lemma_prefix_distinct(m: StoreModel, es: Seq<EntryView>, n: int, now: i64)
    requires
        distinct_keys(es),
        0 <= n <= es.len(),
    ensures
        forall|i: int| 0 <= i < n ==> refresh_prefix(m, es, n, now).contains_key(
            (#[trigger] es[i]).storage_key,
        ) && refresh_prefix(m, es, n, now)[es[i].storage_key] == refilled_state(m, es[i], now),
    decreases n,
{
    if n > 0 {
        lemma_prefix_distinct(m, es, n - 1, now);
        let e = es[n - 1];
        assert forall|j: int| 0 <= j < n - 1 implies (#[trigger] es[j]).storage_key != e.storage_key by {}
        lemma_refresh_prefix_untouched(m, es, n - 1, now, e.storage_key);
    }
}

/// A batch of distinct buckets: each bucket is checked against its own
/// refilled state, nothing being reserved by other entries, and after the
/// refill decisions of the first `n` entries each of those buckets holds its
/// refilled state. With `lemma_all_or_nothing`, a denied batch names the
/// first entry whose refilled state lacks its tokens, reports that state,
/// persists the refilled states of the entries up to it and leaves the
/// buckets after it as they were.
pub proof fn lemma_distinct_batch(m: StoreModel, es: Seq<EntryView>, now: i64)
    requires
        distinct_keys(es),
    ensures
        forall|i: int| 0 <= i < es.len() ==> #[trigger] reserved(es, i, es[i].storage_key) == 0,
        forall|i: int| 0 <= i < es.len() ==> (#[trigger] passes(m, es, i, now) <==> refilled_state(
            m,
            es[i],
            now,
        ).tokens >= es[i].n),
        forall|n: int, i: int| 0 <= i < n <= es.len() ==> #[trigger] refresh_prefix(m, es, n, now)[(#[trigger] es[i]).storage_key]
            == refilled_state(m, es[i], now),
{
    assert forall|i: int| 0 <= i < es.len() implies #[trigger] reserved(es, i, es[i].storage_key) == 0 by {
        assert forall|j: int| 0 <= j < i implies (#[trigger] es[j]).storage_key != es[i].storage_key by {}
        lemma_reserved_zero(es, i, es[i].storage_key);
    }
    assert forall|n: int, i: int| 0 <= i < n <= es.len() implies #[trigger] refresh_prefix(m, es, n, now)[(#[trigger] es[i]).storage_key]
        == refilled_state(m, es[i], now) by {
        lemma_prefix_distinct(m, es, n, now);
    }
    assert forall|i: int| 0 <= i < es.len() implies (#[trigger] passes(m, es, i, now) <==> refilled_state(
        m,
        es[i],
        now,
    ).tokens >= es[i].n) by {
        lemma_prefix_distinct(m, es, i + 1, now);
        assert forall|j: int| 0 <= j < i implies (#[trigger] es[j]).storage_key != es[i].storage_key by {}
        lemma_reserved_zero(es, i, es[i].storage_key);
    }
}

} // verus!
