//! The bucket protocol: refill, write-through and all-or-nothing commit of a
//! batch of consumptions, evaluated against one instant.
use vstd::prelude::*;

verus! {

/// The persisted state of one bucket.
#[derive(Clone, Copy, Debug, PartialEq, Eq, Structural)]
pub struct BucketState {
    /// Tokens currently available.
    pub tokens: u32,
    /// Milliseconds since the epoch of the most recent full refill.
    pub last_fill_at: i64,
}

/// One resource of a batch, in the form the protocol takes it.
#[derive(Debug)]
pub struct ProtocolEntry {
    /// The bucket's storage key.
    pub storage_key: String,
    /// The refill period in milliseconds.
    pub interval_ms: u64,
    /// The most tokens the bucket holds.
    pub capacity: u32,
    /// The tokens requested.
    pub n: u32,
    /// Seconds of inactivity after which a store may drop the bucket.
    pub expire_seconds: u64,
}

/// The mathematical form of a `ProtocolEntry`, as far as the protocol reads it.
pub struct EntryView {
    pub storage_key: Seq<char>,
    pub interval_ms: u64,
    pub capacity: u32,
    pub n: u32,
}

impl ProtocolEntry {
    pub open spec fn view(&self) -> EntryView {
        EntryView {
            storage_key: self.storage_key@,
            interval_ms: self.interval_ms,
            capacity: self.capacity,
            n: self.n,
        }
    }
}

/// The views of a sequence of entries.
pub open spec fn entries_view(es: Seq<ProtocolEntry>) -> Seq<EntryView> {
    es.map_values(|e: ProtocolEntry| e@)
}

/// What one evaluation of a batch decided.
#[derive(Debug)]
pub enum BatchOutcome {
    /// Every resource had enough tokens and all were decremented.
    Admitted,
    /// The first resource without enough tokens, with its state at that moment.
    Denied {
        storage_key: String,
        interval_ms: u64,
        capacity: u32,
        current_tokens: u32,
        last_fill_at: i64,
    },
}

/// The mathematical form of a `BatchOutcome`.
pub enum OutcomeView {
    Admitted,
    Denied {
        storage_key: Seq<char>,
        interval_ms: u64,
        capacity: u32,
        current_tokens: u32,
        last_fill_at: i64,
    },
}

impl BatchOutcome {
    pub open spec fn view(&self) -> OutcomeView {
        match self {
            BatchOutcome::Admitted => OutcomeView::Admitted,
            BatchOutcome::Denied { storage_key, interval_ms, capacity, current_tokens, last_fill_at } =>
                OutcomeView::Denied {
                    storage_key: storage_key@,
                    interval_ms: *interval_ms,
                    capacity: *capacity,
                    current_tokens: *current_tokens,
                    last_fill_at: *last_fill_at,
                },
        }
    }
}

/// The contents of a store: each storage key that has been touched, with its state.
pub type StoreModel = Map<Seq<char>, BucketState>;

/// The state of a bucket once the refill decision has been made at `now`:
/// a new bucket starts full, a bucket whose interval has elapsed is refilled,
/// any other keeps its state.
pub open spec fn refreshed(prev: Option<BucketState>, interval_ms: u64, capacity: u32, now: i64) -> BucketState {
    match prev {
        None => BucketState { tokens: capacity, last_fill_at: now },
        Some(s) => if now - s.last_fill_at >= interval_ms {
            BucketState { tokens: capacity, last_fill_at: now }
        } else {
            s
        },
    }
}

/// The store after the refill decision for `e` has been persisted.
pub open spec fn refresh_entry(m: StoreModel, e: EntryView, now: i64) -> StoreModel {
    m.insert(e.storage_key, refreshed(m.get(e.storage_key), e.interval_ms, e.capacity, now))
}

/// The store after the tokens of `e` have been taken out (never below zero).
pub open spec fn debit_entry(m: StoreModel, e: EntryView) -> StoreModel {
    if m.contains_key(e.storage_key) {
        let s = m[e.storage_key];
        let left: u32 = if s.tokens >= e.n { (s.tokens - e.n) as u32 } else { 0 };
        m.insert(e.storage_key, BucketState { tokens: left, last_fill_at: s.last_fill_at })
    } else {
        m
    }
}

/// The commit step: the entries from `i` on are debited in order.
pub open spec fn commit_from(m: StoreModel, es: Seq<EntryView>, i: int) -> StoreModel
    decreases es.len() - i,
{
    if i < 0 || i >= es.len() {
        m
    } else {
        commit_from(debit_entry(m, es[i]), es, i + 1)
    }
}

/// The tokens that the entries before `i` have asked of the bucket `k`.
pub open spec fn reserved(es: Seq<EntryView>, i: int, k: Seq<char>) -> int
    decreases i,
{
    if i <= 0 || i > es.len() {
        0
    } else {
        reserved(es, i - 1, k) + if es[i - 1].storage_key == k { es[i - 1].n as int } else { 0 }
    }
}

/// The protocol from entry `i` on: each entry is refreshed and persisted, then
/// checked against its request plus what earlier entries of the batch asked of
/// the same bucket; the first entry without enough tokens ends the batch with
/// its state, and when none lacks tokens every entry is debited.
pub open spec fn process_from(m: StoreModel, es: Seq<EntryView>, i: int, now: i64) -> (StoreModel, OutcomeView)
    decreases es.len() - i,
{
    if i < 0 || i >= es.len() {
        (commit_from(m, es, 0), OutcomeView::Admitted)
    } else {
        let e = es[i];
        let m2 = refresh_entry(m, e, now);
        let s = m2[e.storage_key];
        if s.tokens < e.n + reserved(es, i, e.storage_key) {
            (m2, OutcomeView::Denied {
                storage_key: e.storage_key,
                interval_ms: e.interval_ms,
                capacity: e.capacity,
                current_tokens: s.tokens,
                last_fill_at: s.last_fill_at,
            })
        } else {
            process_from(m2, es, i + 1, now)
        }
    }
}

/// The store and the outcome after one evaluation of the batch `es` at `now`.
pub open spec fn process(m: StoreModel, es: Seq<EntryView>, now: i64) -> (StoreModel, OutcomeView) {
    process_from(m, es, 0, now)
}

/// The refill decision at `now`.
pub fn refresh(prev: Option<BucketState>, interval_ms: u64, capacity: u32, now: i64) -> (r: BucketState)
    ensures
        r == refreshed(prev, interval_ms, capacity, now),
{
    match prev {
        None => BucketState { tokens: capacity, last_fill_at: now },
        Some(s) => {
            let elapsed: i128 = now as i128 - s.last_fill_at as i128;
            if elapsed >= interval_ms as i128 {
                BucketState { tokens: capacity, last_fill_at: now }
            } else {
                s
            }
        },
    }
}

/// A store held in memory that evaluates the protocol itself; buckets do not expire.
pub struct MemoryStore {
    keys: Vec<String>,
    states: Vec<BucketState>,
    model: Ghost<StoreModel>,
}

impl MemoryStore {
    /// Each key is held once, beside its state, and the model is exactly what is held.
    pub closed spec fn wf(&self) -> bool {
        &&& self.keys.len() == self.states.len()
        &&& forall|i: int, j: int|
            0 <= i < j < self.keys.len() ==> self.keys@[i]@ != self.keys@[j]@
        &&& forall|i: int|
            0 <= i < self.keys.len() ==> #[trigger] self.model@.contains_key(self.keys@[i]@)
                && self.model@[self.keys@[i]@] == self.states@[i]
        &&& forall|k: Seq<char>|
            #[trigger] self.model@.contains_key(k) ==> exists|i: int|
                0 <= i < self.keys.len() && self.keys@[i]@ == k
    }

    /// The buckets held, by storage key.
    pub closed spec fn view(&self) -> StoreModel {
        self.model@
    }

    /// An empty store.
    pub fn new() -> (r: Self)
        ensures
            r.wf(),
            r@ == StoreModel::empty(),
    {
        MemoryStore { keys: Vec::new(), states: Vec::new(), model: Ghost(StoreModel::empty()) }
    }

    fn find(&self, key: &String) -> (r: Option<usize>)
        requires
            self.wf(),
        ensures
            r is None ==> !self@.contains_key(key@),
            r matches Some(i) ==> i < self.keys.len() && self.keys@[i as int]@ == key@,
    {
        let mut i: usize = 0;
        while i < self.keys.len()
            invariant
                self.wf(),
                i <= self.keys.len(),
                forall|j: int| 0 <= j < i ==> self.keys@[j]@ != key@,
            decreases self.keys.len() - i,
        {
            if self.keys[i] == *key {
                return Some(i);
            }
            i = i + 1;
        }
        None
    }

    /// The state held under `key`, if any.
    pub fn get(&self, key: &String) -> (r: Option<BucketState>)
        requires
            self.wf(),
        ensures
            r == self@.get(key@),
    {
        match self.find(key) {
            Some(i) => Some(self.states[i]),
            None => None,
        }
    }

    /// Stores `s` under `key`.
    pub fn put(&mut self, key: &String, s: BucketState)
        requires
            old(self).wf(),
        ensures
            final(self).wf(),
            final(self)@ == old(self)@.insert(key@, s),
    {
        match self.find(key) {
            Some(i) => {
                self.states.set(i, s);
                self.model = Ghost(self.model@.insert(key@, s));
                assert forall|j: int| 0 <= j < self.keys.len() implies #[trigger] self.model@.contains_key(self.keys@[j]@)
                    && self.model@[self.keys@[j]@] == self.states@[j] by {
                    if j != i {
                        assert(old(self).keys@[j]@ != old(self).keys@[i as int]@);
                    }
                }
                assert forall|k: Seq<char>| #[trigger] self.model@.contains_key(k) implies exists|j: int|
                    0 <= j < self.keys.len() && self.keys@[j]@ == k by {
                    if k == key@ {
                        assert(self.keys@[i as int]@ == k);
                    } else {
                        assert(old(self).model@.contains_key(k));
                    }
                }
            },
            None => {
                let ghost n = self.keys.len() as int;
                self.keys.push(key.clone());
                self.states.push(s);
                self.model = Ghost(self.model@.insert(key@, s));
                assert(self.keys@[n]@ == key@);
                assert forall|j: int| 0 <= j < n implies self.keys@[j]@ != key@ by {
                    assert(old(self).model@.contains_key(old(self).keys@[j]@));
                }
                assert forall|j: int| 0 <= j < self.keys.len() implies #[trigger] self.model@.contains_key(self.keys@[j]@)
                    && self.model@[self.keys@[j]@] == self.states@[j] by {
                    if j < n {
                        assert(old(self).model@.contains_key(old(self).keys@[j]@));
                    }
                }
                assert forall|k: Seq<char>| #[trigger] self.model@.contains_key(k) implies exists|j: int|
                    0 <= j < self.keys.len() && self.keys@[j]@ == k by {
                    if k == key@ {
                        assert(self.keys@[n]@ == k);
                    } else {
                        assert(old(self).model@.contains_key(k));
                        let j = choose|j: int| 0 <= j < old(self).keys.len() && old(self).keys@[j]@ == k;
                        assert(self.keys@[j]@ == k);
                    }
                }
            },
        }
    }
}

fn reserved_before(es: &Vec<ProtocolEntry>, i: usize, key: &String) -> (r: u128)
    requires
        i <= es.len(),
    ensures
        r == reserved(entries_view(es@), i as int, key@),
        r <= i * 4294967295,
{
    let ghost ev = entries_view(es@);
    let mut sum: u128 = 0;
    let mut j: usize = 0;
    while j < i
        invariant
            j <= i <= es.len(),
            ev == entries_view(es@),
            sum == reserved(ev, j as int, key@),
            sum <= j * 4294967295,
        decreases i - j,
    {
        if es[j].storage_key == *key {
            sum = sum + es[j].n as u128;
        }
        j = j + 1;
    }
    sum
}

impl MemoryStore {
    fn debit(&mut self, e: &ProtocolEntry)
        requires
            old(self).wf(),
        ensures
            final(self).wf(),
            final(self)@ == debit_entry(old(self)@, e@),
    {
        if let Some(st) = self.get(&e.storage_key) {
            let left: u32 = if st.tokens >= e.n { st.tokens - e.n } else { 0 };
            self.put(&e.storage_key, BucketState { tokens: left, last_fill_at: st.last_fill_at });
        }
    }

    /// Evaluates the batch `es` at the instant `now`, as one indivisible step.
    pub fn eval_batch(&mut self, es: &Vec<ProtocolEntry>, now: i64) -> (r: BatchOutcome)
        requires
            old(self).wf(),
        ensures
            final(self).wf(),
            (final(self)@, r@) == process(old(self)@, entries_view(es@), now),
    {
        let mut i: usize = 0;
        while i < es.len()
            invariant
                self.wf(),
                i <= es.len(),
                process_from(self@, entries_view(es@), i as int, now) == process(old(self)@, entries_view(es@), now),
            decreases es.len() - i,
        {
            let e = &es[i];
            let s = refresh(self.get(&e.storage_key), e.interval_ms, e.capacity, now);
            self.put(&e.storage_key, s);
            let need = reserved_before(es, i, &e.storage_key) + e.n as u128;
            if (s.tokens as u128) < need {
                return BatchOutcome::Denied {
                    storage_key: e.storage_key.clone(),
                    interval_ms: e.interval_ms,
                    capacity: e.capacity,
                    current_tokens: s.tokens,
                    last_fill_at: s.last_fill_at,
                };
            }
            i = i + 1;
        }
        let ghost committed = self@;
        let mut j: usize = 0;
        while j < es.len()
            invariant
                self.wf(),
                j <= es.len(),
                commit_from(self@, entries_view(es@), j as int) == commit_from(committed, entries_view(es@), 0),
            decreases es.len() - j,
        {
            self.debit(&es[j]);
            j = j + 1;
        }
        BatchOutcome::Admitted
    }
}

} // verus!
