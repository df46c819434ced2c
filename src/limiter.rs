//! The limiter client: key naming, request checks, the protocol's argument
//! form, and decoding of what the protocol returns.
use vstd::prelude::*;
use vstd::string::StringExecFns;
use crate::bucket::{
    BatchOutcome, EntryView, MemoryStore, OutcomeView, ProtocolEntry, StoreModel, entries_view,
    process,
};
use crate::decimal::{decimal, decimal_string};

verus! {

/// The error type of the redis crate, carried through unchanged.
#[verifier::external_type_specification]
#[verifier::external_body]
pub struct ExRedisError(redis::RedisError);

/// Why a consumption did not go through.
#[derive(Debug)]
pub enum RedisConsumeError {
    /// The first resource that lacked tokens, with its state at that moment.
    Denied {
        redis_key: String,
        interval: u32,
        capacity: u32,
        current_tokens: u32,
        last_fill_at: i64,
    },
    /// A request broke a precondition; the message names its values.
    BadArg(String),
    /// The store or the connection to it failed.
    Redis(redis::RedisError),
}

/// One consumption request: resource key, interval in seconds, capacity, tokens.
pub type Request<'a> = (&'a str, u32, u32, u32);

/// The prefix of storage keys unless another is configured.
pub const KEY_PREFIX: &'static str = "limiter";

/// The storage key of a resource: `prefix:key:interval`.
pub open spec fn storage_key(prefix: Seq<char>, key: Seq<char>, interval: u32) -> Seq<char> {
    prefix + seq![':'] + key + seq![':'] + decimal(interval as nat)
}

/// A request may be sent: a non-empty key and positive interval, capacity and count.
pub open spec fn request_valid(a: Request) -> bool {
    a.0@.len() > 0 && a.1 >= 1 && a.2 >= 1 && a.3 >= 1
}

/// Every request of the batch may be sent.
pub open spec fn all_valid(args: Seq<Request>) -> bool {
    forall|i: int| 0 <= i < args.len() ==> request_valid(#[trigger] args[i])
}

/// `i` is the first request of the batch that may not be sent.
pub open spec fn first_invalid(args: Seq<Request>, i: int) -> bool {
    &&& 0 <= i < args.len()
    &&& !request_valid(args[i])
    &&& forall|j: int| 0 <= j < i ==> request_valid(#[trigger] args[j])
}

/// The message of a rejected request.
pub open spec fn bad_arg_message(a: Request) -> Seq<char> {
    "[BadArg]: key="@ + a.0@ + ", interval="@ + decimal(a.1 as nat) + ", capacity="@
        + decimal(a.2 as nat) + ", n="@ + decimal(a.3 as nat)
}

/// Seconds of inactivity after which the store drops a bucket.
pub open spec fn expire_seconds(interval: u32) -> nat {
    2 * (interval as nat) + 15
}

/// The protocol entry of a request.
pub open spec fn request_entry(prefix: Seq<char>, a: Request) -> EntryView {
    EntryView {
        storage_key: storage_key(prefix, a.0@, a.1),
        interval_ms: (a.1 * 1000) as u64,
        capacity: a.2,
        n: a.3,
    }
}

/// The protocol entries of a batch, in order.
pub open spec fn request_entries(prefix: Seq<char>, args: Seq<Request>) -> Seq<EntryView> {
    args.map_values(|a: Request| request_entry(prefix, a))
}

/// The storage key of a resource.
pub fn get_redis_key(prefix: &str, key: &str, interval: u32) -> (r: String)
    ensures
        r@ == storage_key(prefix@, key@, interval),
{
    let mut s = String::from_str(prefix);
    s.append(":");
    s.append(key);
    s.append(":");
    let d = decimal_string(interval as u64);
    s.append(d.as_str());
    proof {
        reveal_strlit(":");
    }
    assert(s@ =~= storage_key(prefix@, key@, interval));
    s
}

/// Checks one request.
pub fn validate_request(a: Request) -> (r: Result<(), RedisConsumeError>)
    ensures
        r is Ok <==> request_valid(a),
        r is Err ==> (r matches Err(RedisConsumeError::BadArg(m)) && m@ == bad_arg_message(a)),
{
    let (key, interval, capacity, n) = a;
    if key.is_empty() || n < 1 || interval < 1 || capacity < 1 {
        let mut m = String::from_str("[BadArg]: key=");
        m.append(key);
        m.append(", interval=");
        m.append(decimal_string(interval as u64).as_str());
        m.append(", capacity=");
        m.append(decimal_string(capacity as u64).as_str());
        m.append(", n=");
        m.append(decimal_string(n as u64).as_str());
        assert(m@ =~= bad_arg_message(a));
        Err(RedisConsumeError::BadArg(m))
    } else {
        Ok(())
    }
}

/// The protocol's arguments for a batch, or the rejection of its first bad request.
pub fn build_entries(prefix: &str, args: &Vec<Request>) -> (r: Result<Vec<ProtocolEntry>, RedisConsumeError>)
    ensures
        r is Ok <==> all_valid(args@),
        r matches Ok(es) ==> entries_view(es@) == request_entries(prefix@, args@),
        r matches Ok(es) ==> es.len() == args.len() && forall|i: int| 0 <= i < es.len()
            ==> #[trigger] es@[i].expire_seconds == expire_seconds(args@[i].1),
        r is Err ==> exists|i: int| first_invalid(args@, i) && (r matches Err(
            RedisConsumeError::BadArg(m)) && m@ == bad_arg_message(args@[i])),
{
    let mut es: Vec<ProtocolEntry> = Vec::new();
    let mut i: usize = 0;
    while i < args.len()
        invariant
            i <= args.len(),
            es.len() == i,
            forall|j: int| 0 <= j < i ==> request_valid(#[trigger] args@[j]),
            forall|j: int| 0 <= j < i ==> #[trigger] es@[j]@ == request_entry(prefix@, args@[j]),
            forall|j: int| 0 <= j < i ==> #[trigger] es@[j].expire_seconds == expire_seconds(args@[j].1),
        decreases args.len() - i,
    {
        let a = args[i];
        match validate_request(a) {
            Err(e) => {
                assert(first_invalid(args@, i as int));
                return Err(e);
            },
            Ok(()) => {},
        }
        let (key, interval, capacity, n) = a;
        es.push(ProtocolEntry {
            storage_key: get_redis_key(prefix, key, interval),
            interval_ms: interval as u64 * 1000,
            capacity,
            n,
            expire_seconds: interval as u64 * 2 + 15,
        });
        i = i + 1;
    }
    assert(entries_view(es@) =~= request_entries(prefix@, args@));
    Ok(es)
}

/// Decodes what the protocol returned: `(_, 0, 0, 0, 0)` admits the batch,
/// any other tuple names the first denied resource with its interval in
/// milliseconds, and a failure of the store is passed on.
pub fn decode_reply(reply: Result<(String, u32, u32, u32, i64), redis::RedisError>) -> (r: Result<(), RedisConsumeError>)
    ensures
        match reply {
            Ok(t) => if t.1 == 0 && t.2 == 0 && t.3 == 0 && t.4 == 0 {
                r is Ok
            } else {
                r matches Err(RedisConsumeError::Denied { redis_key, interval, capacity, current_tokens, last_fill_at })
                    && redis_key@ == t.0@ && interval == t.1 / 1000 && capacity == t.2
                    && current_tokens == t.3 && last_fill_at == t.4
            },
            Err(e) => r == Err::<(), RedisConsumeError>(RedisConsumeError::Redis(e)),
        },
{
    match reply {
        Ok((redis_key, interval_ms, capacity, current_tokens, last_fill_at)) => {
            if interval_ms == 0 && capacity == 0 && current_tokens == 0 && last_fill_at == 0 {
                Ok(())
            } else {
                Err(RedisConsumeError::Denied {
                    redis_key,
                    interval: interval_ms / 1000,
                    capacity,
                    current_tokens,
                    last_fill_at,
                })
            }
        },
        Err(e) => Err(RedisConsumeError::Redis(e)),
    }
}

/// The result of a consumption for an outcome of the protocol.
pub open spec fn outcome_matches(o: OutcomeView, r: Result<(), RedisConsumeError>) -> bool {
    match o {
        OutcomeView::Admitted => r is Ok,
        OutcomeView::Denied { storage_key, interval_ms, capacity, current_tokens, last_fill_at } =>
            r matches Err(RedisConsumeError::Denied { redis_key, interval: i, capacity: c, current_tokens: t, last_fill_at: f })
                && redis_key@ == storage_key && i == (interval_ms / 1000) as u32 && c == capacity
                && t == current_tokens && f == last_fill_at,
    }
}

/// Turns an outcome of the protocol into the result of a consumption.
pub fn outcome_result(o: BatchOutcome) -> (r: Result<(), RedisConsumeError>)
    ensures
        outcome_matches(o@, r),
{
    match o {
        BatchOutcome::Admitted => Ok(()),
        BatchOutcome::Denied { storage_key, interval_ms, capacity, current_tokens, last_fill_at } =>
            Err(RedisConsumeError::Denied {
                redis_key: storage_key,
                interval: (interval_ms / 1000) as u32,
                capacity,
                current_tokens,
                last_fill_at,
            }),
    }
}

/// Relies on `std::time::SystemTime::now` with `duration_since(UNIX_EPOCH)`,
/// and on chrono's `TimeDelta::from_std` and `TimeDelta::num_milliseconds`:
/// the wall-clock time in milliseconds since the epoch. Nothing is returned
/// when the clock reads before the epoch or beyond what a `TimeDelta` holds;
/// neither call panics.
#[verifier::external_body]
fn now_ms() -> (r: Option<i64>)
    ensures
        r matches Some(t) ==> t >= 0,
{
    match std::time::SystemTime::now().duration_since(std::time::UNIX_EPOCH) {
        Ok(d) => match chrono::TimeDelta::from_std(d) {
            Ok(t) => Some(t.num_milliseconds()),
            Err(_) => None,
        },
        Err(_) => None,
    }
}

/// The tokens of the bucket under `key`, if it has been touched.
pub open spec fn token_count(m: StoreModel, key: Seq<char>) -> Option<u32> {
    if m.contains_key(key) { Some(m[key].tokens) } else { None }
}

/// A limiter whose buckets live in this process, in a store that runs the
/// protocol itself.
pub struct MemoryLimiter {
    key_prefix: String,
    store: MemoryStore,
}

impl MemoryLimiter {
    /// The store holds each bucket once.
    pub closed spec fn wf(&self) -> bool {
        self.store.wf()
    }

    /// The prefix of this limiter's storage keys.
    pub closed spec fn prefix(&self) -> Seq<char> {
        self.key_prefix@
    }

    /// The buckets held, by storage key.
    pub closed spec fn buckets(&self) -> StoreModel {
        self.store@
    }

    /// A limiter with no bucket yet, whose storage keys start with `key_prefix`.
    pub fn new(key_prefix: &str) -> (r: Self)
        ensures
            r.wf(),
            r.prefix() == key_prefix@,
            r.buckets() == StoreModel::empty(),
    {
        MemoryLimiter { key_prefix: String::from_str(key_prefix), store: MemoryStore::new() }
    }

    /// The storage key of a resource under this limiter's prefix.
    pub fn get_redis_key(&self, key: &str, interval: u32) -> (r: String)
        ensures
            r@ == storage_key(self.prefix(), key@, interval),
    {
        get_redis_key(self.key_prefix.as_str(), key, interval)
    }

    /// The tokens of a resource as last persisted; nothing if it was never touched.
    /// No refill happens here.
    pub fn get_token_count(&self, key: &str, interval: u32) -> (r: Option<u32>)
        requires
            self.wf(),
        ensures
            r == token_count(self.buckets(), storage_key(self.prefix(), key@, interval)),
    {
        let k = self.get_redis_key(key, interval);
        match self.store.get(&k) {
            Some(s) => Some(s.tokens),
            None => None,
        }
    }

    /// Consumes from every resource of the batch at the instant `now_ms`, or
    /// from none: a bad request is rejected before the store is touched;
    /// otherwise the protocol runs once on the whole batch.
    pub fn consume(&mut self, args: Vec<Request>, now_ms: i64) -> (r: Result<(), RedisConsumeError>)
        requires
            old(self).wf(),
        ensures
            final(self).wf(),
            final(self).prefix() == old(self).prefix(),
            !all_valid(args@) ==> final(self).buckets() == old(self).buckets()
                && exists|i: int| first_invalid(args@, i) && (r matches Err(
                RedisConsumeError::BadArg(m)) && m@ == bad_arg_message(args@[i])),
            all_valid(args@) ==> ({
                let p = process(old(self).buckets(), request_entries(old(self).prefix(), args@), now_ms);
                final(self).buckets() == p.0 && outcome_matches(p.1, r)
            }),
    {
        let es = build_entries(self.key_prefix.as_str(), &args);
        match es {
            Err(e) => Err(e),
            Ok(es) => {
                let o = self.store.eval_batch(&es, now_ms);
                outcome_result(o)
            },
        }
    }

    /// Consumes `n` tokens of one resource at the instant `now_ms`.
    pub fn consume_one(&mut self, key: &str, interval: u32, capacity: u32, n: u32, now_ms: i64) -> (r: Result<(), RedisConsumeError>)
        requires
            old(self).wf(),
        ensures
            final(self).wf(),
            final(self).prefix() == old(self).prefix(),
            !request_valid((key, interval, capacity, n)) ==> final(self).buckets() == old(self).buckets()
                && (r matches Err(RedisConsumeError::BadArg(m)) && m@ == bad_arg_message((key, interval, capacity, n))),
            request_valid((key, interval, capacity, n)) ==> ({
                let p = process(old(self).buckets(), seq![request_entry(old(self).prefix(), (key, interval, capacity, n))], now_ms);
                final(self).buckets() == p.0 && outcome_matches(p.1, r)
            }),
    {
        let args: Vec<Request> = vec![(key, interval, capacity, n)];
        assert(request_entries(self.prefix(), args@) =~= seq![request_entry(self.prefix(), (key, interval, capacity, n))]);
        self.consume(args, now_ms)
    }

    /// Consumes from the batch at the current time of the system clock.
    /// Returns nothing, touching no bucket, when the clock cannot be read as
    /// milliseconds since the epoch.
    pub fn consume_now(&mut self, args: Vec<Request>) -> (r: Option<Result<(), RedisConsumeError>>)
        requires
            old(self).wf(),
        ensures
            final(self).wf(),
            final(self).prefix() == old(self).prefix(),
            r is None ==> final(self).buckets() == old(self).buckets(),
            r matches Some(res) ==> (!all_valid(args@) ==> final(self).buckets() == old(self).buckets()
                && exists|i: int| first_invalid(args@, i) && (res matches Err(
                RedisConsumeError::BadArg(m)) && m@ == bad_arg_message(args@[i]))),
            r matches Some(res) ==> (all_valid(args@) ==> exists|now: i64|
                now >= 0 && final(self).buckets() == (#[trigger] process(old(self).buckets(), request_entries(old(self).prefix(), args@), now)).0
                && outcome_matches(process(old(self).buckets(), request_entries(old(self).prefix(), args@), now).1, res)),
    {
        match now_ms() {
            Some(now) => Some(self.consume(args, now)),
            None => None,
        }
    }
}

} // verus!
