use vstd::prelude::*;
use crate::client_id::{client_identifier_of, extract_client_identifier, RequestMeta};
use crate::text::{decimal_text, push_decimal, same_text};

verus! {

/// Requests per window of the general route group.
pub const NORMAL_LIMIT: u32 = 100;
/// Requests per window of the sensitive route group.
pub const STRICT_LIMIT: u32 = 10;
/// Requests per window of the login and registration routes.
pub const AUTH_LIMIT: u32 = 5;
/// Length of every policy's window, in seconds.
pub const POLICY_WINDOW_SECONDS: u64 = 60;

/// Throttling state of one client. Times are milliseconds of a monotonic clock.
#[derive(Debug, Clone, Copy, PartialEq, Eq)]
pub struct RateLimitData {
    pub count: u32,
    pub window_start: u64,
    pub block_start: Option<u64>,
}

/// Milliseconds from `from` to `to`, zero when `to` is earlier.
pub open spec fn elapsed_ms(from: u64, to: u64) -> nat {
    if to >= from { (to - from) as nat } else { 0 }
}

/// The state of a client whose window starts at `now`.
pub open spec fn fresh_data(now: u64) -> RateLimitData {
    RateLimitData { count: 1, window_start: now, block_start: None }
}

/// One request of a client at time `now`: the client's next state, whether the
/// request is allowed, and the seconds to wait when it is not.
pub open spec fn rate_step(
    entry: Option<RateLimitData>,
    now: u64,
    limit: u32,
    window_seconds: u64,
) -> (RateLimitData, bool, u64) {
    match entry {
        None => (fresh_data(now), true, 0),
        Some(d) => {
            if elapsed_ms(d.window_start, now) > window_seconds * 1000 {
                (fresh_data(now), true, 0)
            } else if d.count < limit {
                (RateLimitData { count: (d.count + 1) as u32, window_start: d.window_start, block_start: None }, true, 0)
            } else {
                let bs = match d.block_start {
                    Some(b) => b,
                    None => now,
                };
                let blocked_secs = elapsed_ms(bs, now) / 1000;
                if blocked_secs < window_seconds {
                    (
                        RateLimitData { count: d.count, window_start: d.window_start, block_start: Some(bs) },
                        false,
                        (window_seconds - blocked_secs) as u64,
                    )
                } else {
                    (fresh_data(now), true, 0)
                }
            }
        },
    }
}

/// The state recorded under `key` in a store's map, if any.
pub open spec fn entry_of(m: Map<Seq<char>, RateLimitData>, key: Seq<char>) -> Option<RateLimitData> {
    if m.contains_key(key) { Some(m[key]) } else { None }
}

/// The throttling state of every client seen so far, keyed by client identifier.
pub struct RateLimitStore {
    keys: Vec<String>,
    data: Vec<RateLimitData>,
}

impl RateLimitStore {
    /// Keys and states pair up, and no key occurs twice.
    pub closed spec fn wf(&self) -> bool {
        &&& self.keys@.len() == self.data@.len()
        &&& forall|i: int, j: int|
            0 <= i < j < self.keys@.len() ==> (#[trigger] self.keys@[i])@ != (#[trigger] self.keys@[j])@
    }

    /// The state recorded for `key`, if any.
    pub closed spec fn entry(&self, key: Seq<char>) -> Option<RateLimitData> {
        if exists|i: int| 0 <= i < self.keys@.len() && (#[trigger] self.keys@[i])@ == key {
            let i = choose|i: int| 0 <= i < self.keys@.len() && (#[trigger] self.keys@[i])@ == key;
            Some(self.data@[i])
        } else {
            None
        }
    }

    /// The store as a map from client identifier to state.
    pub open spec fn view(&self) -> Map<Seq<char>, RateLimitData> {
        Map::new(|k: Seq<char>| self.entry(k) is Some, |k: Seq<char>| self.entry(k)->Some_0)
    }

    proof fn lemma_entry_at(&self, i: int)
        requires
            self.wf(),
            0 <= i < self.keys@.len(),
        ensures
            self.entry(self.keys@[i]@) == Some(self.data@[i]),
    {
        let key = self.keys@[i]@;
        assert(0 <= i < self.keys@.len() && self.keys@[i]@ == key);
        let j = choose|j: int| 0 <= j < self.keys@.len() && (#[trigger] self.keys@[j])@ == key;
        if j < i {
            assert(self.keys@[j]@ != self.keys@[i]@);
        } else if i < j {
            assert(self.keys@[i]@ != self.keys@[j]@);
        }
    }

    pub fn new() -> (r: RateLimitStore)
        ensures
            r.wf(),
            r@ == Map::<Seq<char>, RateLimitData>::empty(),
    {
        let r = RateLimitStore { keys: Vec::new(), data: Vec::new() };
        assert(r@ =~= Map::<Seq<char>, RateLimitData>::empty());
        r
    }

    /// The state recorded for `key`, if any.
    pub fn get(&self, key: &str) -> (r: Option<RateLimitData>)
        requires
            self.wf(),
        ensures
            r == entry_of(self@, key@),
    {
        match self.position(key) {
            Some(i) => {
                proof { self.lemma_entry_at(i as int); }
                Some(self.data[i])
            },
            None => None,
        }
    }

    fn position(&self, key: &str) -> (r: Option<usize>)
        requires
            self.wf(),
        ensures
            match r {
                Some(i) => i < self.keys@.len() && self.keys@[i as int]@ == key@,
                None => forall|i: int| 0 <= i < self.keys@.len() ==> (#[trigger] self.keys@[i])@ != key@,
            },
    {
        let mut i: usize = 0;
        while i < self.keys.len()
            invariant
                self.wf(),
                i <= self.keys@.len(),
                forall|j: int| 0 <= j < i ==> (#[trigger] self.keys@[j])@ != key@,
            decreases self.keys@.len() - i,
        {
            if same_text(self.keys[i].as_str(), key) {
                return Some(i);
            }
            i = i + 1;
        }
        None
    }

    /// Records one request of client `key` at time `now_ms` under a policy of
    /// `limit` requests per `window_seconds`, and says whether it is allowed and,
    /// when it is not, how many seconds the client has to wait.
    pub fn check_rate_limit(&mut self, key: &str, limit: u32, window_seconds: u64, now_ms: u64) -> (r: (bool, u64))
        requires
            old(self).wf(),
        ensures
            final(self).wf(),
            ({
                let (next, allowed, wait) = rate_step(entry_of(old(self)@, key@), now_ms, limit, window_seconds);
                &&& r == (allowed, wait)
                &&& final(self)@ == old(self)@.insert(key@, next)
            }),
    {
        let ghost before = *self;
        proof { assert(entry_of(before@, key@) == before.entry(key@)); }
        let window_ms: u128 = (window_seconds as u128) * 1000;
        match self.position(key) {
            None => {
                self.keys.push(String::from_str(key));
                self.data.push(RateLimitData { count: 1, window_start: now_ms, block_start: None });
                proof {
                    let n = before.keys@.len() as int;
                    assert forall|i: int, j: int| 0 <= i < j < self.keys@.len() implies
                        (#[trigger] self.keys@[i])@ != (#[trigger] self.keys@[j])@ by {
                        if j == n {
                            assert(before.keys@[i] == self.keys@[i]);
                        } else {
                            assert(before.keys@[i] == self.keys@[i]);
                            assert(before.keys@[j] == self.keys@[j]);
                        }
                    }
                    self.lemma_entry_at(n);
                    assert forall|k: Seq<char>| k != key@ implies self.entry(k) == before.entry(k) by {
                        if exists|i: int| 0 <= i < self.keys@.len() && (#[trigger] self.keys@[i])@ == k {
                            let i = choose|i: int| 0 <= i < self.keys@.len() && (#[trigger] self.keys@[i])@ == k;
                            assert(i != n);
                            assert(before.keys@[i] == self.keys@[i]);
                            self.lemma_entry_at(i);
                            before.lemma_entry_at(i);
                        } else {
                            if exists|i: int| 0 <= i < before.keys@.len() && (#[trigger] before.keys@[i])@ == k {
                                let i = choose|i: int| 0 <= i < before.keys@.len() && (#[trigger] before.keys@[i])@ == k;
                                assert(self.keys@[i] == before.keys@[i]);
                            }
                        }
                    }
                    assert(self@ =~= before@.insert(key@, fresh_data(now_ms)));
                }
                (true, 0)
            },
            Some(i) => {
                proof { before.lemma_entry_at(i as int); }
                let d = self.data[i];
                let since_window: u64 = if now_ms >= d.window_start { now_ms - d.window_start } else { 0 };
                let mut allowed = true;
                let mut wait: u64 = 0;
                let next: RateLimitData;
                if (since_window as u128) > window_ms {
                    next = RateLimitData { count: 1, window_start: now_ms, block_start: None };
                } else if d.count < limit {
                    next = RateLimitData { count: d.count + 1, window_start: d.window_start, block_start: None };
                } else {
                    let bs = match d.block_start {
                        Some(b) => b,
                        None => now_ms,
                    };
                    let since_block: u64 = if now_ms >= bs { now_ms - bs } else { 0 };
                    let blocked_secs = since_block / 1000;
                    if blocked_secs < window_seconds {
                        next = RateLimitData { count: d.count, window_start: d.window_start, block_start: Some(bs) };
                        allowed = false;
                        wait = window_seconds - blocked_secs;
                    } else {
                        next = RateLimitData { count: 1, window_start: now_ms, block_start: None };
                    }
                }
                self.data.set(i, next);
                proof {
                    assert(self.keys@ == before.keys@);
                    self.lemma_entry_at(i as int);
                    assert forall|k: Seq<char>| k != key@ implies self.entry(k) == before.entry(k) by {
                        if exists|j: int| 0 <= j < self.keys@.len() && (#[trigger] self.keys@[j])@ == k {
                            let j = choose|j: int| 0 <= j < self.keys@.len() && (#[trigger] self.keys@[j])@ == k;
                            assert(j != i);
                            self.lemma_entry_at(j);
                            before.lemma_entry_at(j);
                        }
                    }
                    assert(self@ =~= before@.insert(key@, next));
                }
                (allowed, wait)
            },
        }
    }
}


/// The throttling policies of the route groups.
#[derive(Debug, Clone, Copy, PartialEq, Eq)]
pub enum RateLimitPolicy {
    /// 100 requests a minute.
    Normal,
    /// 10 requests a minute.
    Strict,
    /// 5 requests a minute, for login and registration.
    Auth,
}

pub open spec fn policy_limit(p: RateLimitPolicy) -> u32 {
    match p {
        RateLimitPolicy::Normal => NORMAL_LIMIT,
        RateLimitPolicy::Strict => STRICT_LIMIT,
        RateLimitPolicy::Auth => AUTH_LIMIT,
    }
}

impl RateLimitPolicy {
    pub fn limit(&self) -> (r: u32)
        ensures
            r == policy_limit(*self),
    {
        match self {
            RateLimitPolicy::Normal => NORMAL_LIMIT,
            RateLimitPolicy::Strict => STRICT_LIMIT,
            RateLimitPolicy::Auth => AUTH_LIMIT,
        }
    }

    pub fn window_seconds(&self) -> (r: u64)
        ensures
            r == POLICY_WINDOW_SECONDS,
    {
        POLICY_WINDOW_SECONDS
    }
}

/// What a throttled client is told: the wait in seconds, in the body and in
/// the `retry-after` headers.
#[derive(Debug, Clone)]
pub struct RateLimitDenial {
    pub error: String,
    pub message: String,
    pub retry_after: u64,
}

pub open spec fn denial_message(wait: u64) -> Seq<char> {
    "Límite de tasa excedido. Por favor espere "@ + decimal_text(wait as nat) + " segundos"@
}

/// The denial of a client that has to wait `wait` seconds.
pub fn denial_for(wait: u64) -> (r: RateLimitDenial)
    ensures
        r.retry_after == wait,
        r.message@ == denial_message(wait),
        r.error@ == "Too Many Request"@,
{
    let mut message = String::from_str("Límite de tasa excedido. Por favor espere ");
    push_decimal(&mut message, wait);
    message.append(" segundos");
    RateLimitDenial { error: String::from_str("Too Many Request"), message, retry_after: wait }
}

impl RateLimitStore {
    /// Throttles one request under `policy` at time `now_ms`: records it
    /// against the request's client identifier, and lets it through or says
    /// how long to wait.
    pub fn throttle(&mut self, meta: &RequestMeta, policy: RateLimitPolicy, now_ms: u64) -> (r: Result<(), RateLimitDenial>)
        requires
            old(self).wf(),
        ensures
            final(self).wf(),
            ({
                let key = client_identifier_of(*meta);
                let (next, allowed, wait) = rate_step(entry_of(old(self)@, key), now_ms, policy_limit(policy), POLICY_WINDOW_SECONDS);
                &&& final(self)@ == old(self)@.insert(key, next)
                &&& allowed <==> r is Ok
                &&& r is Err ==> r->Err_0.retry_after == wait && r->Err_0.message@ == denial_message(wait)
            }),
    {
        let key = extract_client_identifier(meta);
        proof { assert(entry_of(old(self)@, key@) == old(self).entry(key@)); }
        let (allowed, wait) = self.check_rate_limit(key.as_str(), policy.limit(), policy.window_seconds(), now_ms);
        if allowed {
            Ok(())
        } else {
            Err(denial_for(wait))
        }
    }
}

/// A client whose window has run out: its next request starts afresh, exactly
/// as a new client's would.
pub open spec fn is_stale(d: RateLimitData, now: u64, window_seconds: u64) -> bool {
    elapsed_ms(d.window_start, now) > window_seconds * 1000
}

impl RateLimitStore {
    /// Forgets every client whose window of `window_seconds` has run out at
    /// time `now_ms`, and keeps every other client as it is.
    pub fn evict_stale(&mut self, now_ms: u64, window_seconds: u64)
        requires
            old(self).wf(),
        ensures
            final(self).wf(),
            forall|k: Seq<char>| #[trigger] final(self)@.contains_key(k) <==> (old(self)@.contains_key(k)
                && !is_stale(old(self)@[k], now_ms, window_seconds)),
            forall|k: Seq<char>| #[trigger] final(self)@.contains_key(k) ==> final(self)@[k] == old(self)@[k],
    {
        let ghost before = *self;
        let window_ms: u128 = (window_seconds as u128) * 1000;
        let mut keys: Vec<String> = Vec::new();
        let mut data: Vec<RateLimitData> = Vec::new();
        let ghost mut src: Seq<int> = Seq::empty();
        let n = self.keys.len();
        let mut i: usize = 0;
        while i < n
            invariant
                before.wf(),
                window_ms == window_seconds * 1000,
                n == before.keys@.len(),
                i <= n,
                keys@.len() == data@.len(),
                src.len() == keys@.len(),
                forall|j: int| 0 <= j < src.len() ==> 0 <= #[trigger] src[j] < i,
                forall|j1: int, j2: int| 0 <= j1 < j2 < src.len() ==> src[j1] < src[j2],
                forall|j: int| 0 <= j < src.len() ==> (#[trigger] keys@[j])@ == before.keys@[src[j]]@
                    && data@[j] == before.data@[src[j]] && !is_stale(before.data@[src[j]], now_ms, window_seconds),
                forall|m: int| 0 <= m < i && !is_stale(#[trigger] before.data@[m], now_ms, window_seconds) ==> exists|j: int|
                    0 <= j < src.len() && src[j] == m,
                self.keys == before.keys,
                self.data == before.data,
            decreases n - i,
        {
            let d = self.data[i];
            assert(d == before.data@[i as int]);
            let since: u64 = if now_ms >= d.window_start { now_ms - d.window_start } else { 0 };
            assert(since == elapsed_ms(d.window_start, now_ms));
            if (since as u128) <= window_ms {
                let ghost old_keys = keys@;
                let ghost old_data = data@;
                let k = self.keys[i].clone();
                assert(k@ == before.keys@[i as int]@);
                keys.push(k);
                data.push(d);
                proof {
                    let old_src = src;
                    assert forall|j: int| 0 <= j < old_src.len() implies keys@[j] == old_keys[j] && data@[j] == old_data[j] by {}
                    src = src.push(i as int);
                    assert forall|m: int| 0 <= m < i + 1 && !is_stale(#[trigger] before.data@[m], now_ms, window_seconds) implies exists|j: int|
                        0 <= j < src.len() && src[j] == m by {
                        if m < i {
                            let j = choose|j: int| 0 <= j < old_src.len() && old_src[j] == m;
                            assert(src[j] == m);
                        } else {
                            assert(src[src.len() - 1] == m);
                        }
                    }
                }
            } else {
                proof {
                    assert(is_stale(before.data@[i as int], now_ms, window_seconds));
                    assert forall|m: int| 0 <= m < i + 1 && !is_stale(#[trigger] before.data@[m], now_ms, window_seconds) implies exists|j: int|
                        0 <= j < src.len() && src[j] == m by {
                        assert(m != i);
                    }
                }
            }
            i = i + 1;
        }
        self.keys = keys;
        self.data = data;
        proof {
            assert forall|a: int, b: int| 0 <= a < b < self.keys@.len() implies (#[trigger] self.keys@[a])@
                != (#[trigger] self.keys@[b])@ by {
                assert(src[a] < src[b]);
                assert(before.keys@[src[a]]@ != before.keys@[src[b]]@);
            }
            assert forall|k: Seq<char>| #[trigger] self@.contains_key(k) <==> (before@.contains_key(k) && !is_stale(
                before@[k],
                now_ms,
                window_seconds,
            )) by {
                if self@.contains_key(k) {
                    let j = choose|j: int| 0 <= j < self.keys@.len() && (#[trigger] self.keys@[j])@ == k;
                    before.lemma_entry_at(src[j]);
                    self.lemma_entry_at(j);
                }
                if before@.contains_key(k) && !is_stale(before@[k], now_ms, window_seconds) {
                    let m = choose|m: int| 0 <= m < before.keys@.len() && (#[trigger] before.keys@[m])@ == k;
                    before.lemma_entry_at(m);
                    let j = choose|j: int| 0 <= j < src.len() && src[j] == m;
                    assert(self.keys@[j]@ == k);
                }
            }
            assert forall|k: Seq<char>| #[trigger] self@.contains_key(k) implies self@[k] == before@[k] by {
                let j = choose|j: int| 0 <= j < self.keys@.len() && (#[trigger] self.keys@[j])@ == k;
                before.lemma_entry_at(src[j]);
                self.lemma_entry_at(j);
            }
        }
    }
}

/// Forgetting a stale client changes nothing: from the time its window ran
/// out on, its next request is treated exactly as a new client's.
pub proof fn lemma_stale_entry_is_fresh(d: RateLimitData, now: u64, later: u64, limit: u32, window_seconds: u64)
    requires
        is_stale(d, now, window_seconds),
        now <= later,
    ensures
        rate_step(Some(d), later, limit, window_seconds) == rate_step(None, later, limit, window_seconds),
{
}

/// Replays requests of one client at the given times, starting from `entry`:
/// the client's final state and how many of the requests were allowed.
pub open spec fn replay(
    entry: Option<RateLimitData>,
    times: Seq<u64>,
    limit: u32,
    window_seconds: u64,
) -> (Option<RateLimitData>, nat)
    decreases times.len(),
{
    if times.len() == 0 {
        (entry, 0)
    } else {
        let (prev, admitted) = replay(entry, times.drop_last(), limit, window_seconds);
        let (next, allowed, _wait) = rate_step(prev, times.last(), limit, window_seconds);
        (Some(next), admitted + if allowed { 1nat } else { 0nat })
    }
}

/// Request times that never go back and all fall strictly inside the window
/// that the first of them opens.
pub open spec fn within_one_window(times: Seq<u64>, window_seconds: u64) -> bool {
    &&& forall|i: int, j: int| 0 <= i <= j < times.len() ==> times[i] <= times[j]
    &&& forall|i: int| 0 <= i < times.len() ==> (#[trigger] times[i] - times[0]) < window_seconds * 1000
}

/// A denied request always waits at least one second and at most the window.
pub proof fn lemma_denial_wait_bounded(entry: Option<RateLimitData>, now: u64, limit: u32, window_seconds: u64)
    ensures
        ({
            let (_next, allowed, wait) = rate_step(entry, now, limit, window_seconds);
            !allowed ==> 0 < wait <= window_seconds
        }),
{
}

/// A client that has used up its limit inside the current window, and is not
/// blocked yet, is denied and has to wait the whole window.
pub proof fn lemma_over_limit_denied(d: RateLimitData, now: u64, limit: u32, window_seconds: u64)
    requires
        d.count >= limit,
        elapsed_ms(d.window_start, now) <= window_seconds * 1000,
        d.block_start is None,
        window_seconds > 0,
    ensures
        ({
            let (next, allowed, wait) = rate_step(Some(d), now, limit, window_seconds);
            &&& !allowed
            &&& wait == window_seconds
            &&& next.block_start == Some(now)
            &&& next.count == d.count
        }),
{
}

/// Once more than the window has passed since a client's window started, its
/// next request is allowed and the count starts again at 1.
pub proof fn lemma_window_elapsed_resets(d: RateLimitData, now: u64, limit: u32, window_seconds: u64)
    requires
        elapsed_ms(d.window_start, now) > window_seconds * 1000,
    ensures
        ({
            let (next, allowed, wait) = rate_step(Some(d), now, limit, window_seconds);
            &&& allowed
            &&& wait == 0
            &&& next == fresh_data(now)
        }),
{
}

proof fn lemma_replay_shape(times: Seq<u64>, k: int, limit: u32, window_seconds: u64)
    requires
        limit >= 1,
        0 <= k <= times.len(),
        within_one_window(times, window_seconds),
    ensures
        ({
            let (e, admitted) = replay(None, times.subrange(0, k), limit, window_seconds);
            &&& k == 0 ==> e is None && admitted == 0
            &&& 1 <= k <= limit ==> e == Some(RateLimitData { count: k as u32, window_start: times[0], block_start: None })
                && admitted == k
            &&& k > limit ==> e == Some(RateLimitData { count: limit, window_start: times[0], block_start: Some(times[limit as int]) })
                && admitted == limit
        }),
    decreases k,
{
    if k > 0 {
        lemma_replay_shape(times, k - 1, limit, window_seconds);
        let pre = times.subrange(0, k);
        assert(pre.drop_last() =~= times.subrange(0, k - 1));
        let t = times[k - 1];
        assert(pre.last() == t);
        assert(times[0] <= t);
        assert(t - times[0] < window_seconds * 1000);
        if k > limit + 1 {
            let tb = times[limit as int];
            assert(tb <= t);
            assert(times[0] <= tb);
            let x = (t - tb) as int;
            let y = (t - times[0]) as int;
            assert(x <= y);
            assert(x / 1000 < window_seconds) by (nonlinear_arith)
                requires x <= y, y < window_seconds * 1000, x >= 0;
        }
    }
}

/// Requests of a fresh client that all fall inside one window, however many
/// arrive at once, are allowed exactly up to the limit and denied after it.
pub proof fn lemma_admits_up_to_limit(times: Seq<u64>, limit: u32, window_seconds: u64)
    requires
        limit >= 1,
        within_one_window(times, window_seconds),
    ensures
        replay(None, times, limit, window_seconds).1 == if times.len() <= limit { times.len() } else { limit as nat },
        times.len() >= 1 ==> replay(None, times, limit, window_seconds).0 is Some && replay(
            None,
            times,
            limit,
            window_seconds,
        ).0->Some_0.count == if times.len() <= limit { times.len() } else { limit as nat },
{
    lemma_replay_shape(times, times.len() as int, limit, window_seconds);
    assert(times.subrange(0, times.len() as int) =~= times);
}

} // verus!
