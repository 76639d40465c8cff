//! Connection and message rate limits.

use vstd::prelude::*;
use std::collections::VecDeque;
use crate::state::world::World;
use crate::text::spec_trim;

verus! {

/// The connection times recorded for `ip`, oldest first.
pub open spec fn ip_bucket(w: World, ip: Seq<char>) -> Seq<i64> {
    if w.ip_connections.map().contains_key(ip) {
        w.ip_connections.map()[ip]@
    } else {
        Seq::empty()
    }
}

/// A new connection is refused when the `rate_limit`-th most recent one came
/// within a second, or when `connection_limit` connections are open.
pub open spec fn connection_refused(b: Seq<i64>, now: i64, connection_limit: usize, rate_limit: usize) -> bool {
    ||| (rate_limit > 0 && b.len() >= rate_limit && now - b[b.len() - rate_limit] <= 1000)
    ||| b.len() >= connection_limit
}

/// Decides on a connection from `ip` at time `now`; an accepted connection
/// is recorded. Returns true when the connection is refused.
pub fn check_ip_connection_limit_at(
    world: &mut World,
    ip: &str,
    connection_limit: usize,
    rate_limit: usize,
    now: i64,
) -> (r: bool)
    ensures
        r == connection_refused(ip_bucket(*old(world), ip@), now, connection_limit, rate_limit),
        final(world).ip_connections.map().contains_key(ip@),
        final(world).ip_connections.map() == old(world).ip_connections.map().insert(
            ip@,
            final(world).ip_connections.map()[ip@],
        ),
        ip_bucket(*final(world), ip@) == if r {
            ip_bucket(*old(world), ip@)
        } else {
            ip_bucket(*old(world), ip@).push(now)
        },
        final(world).accounts_by_socket == old(world).accounts_by_socket,
        final(world).chat_rooms == old(world).chat_rooms,
        final(world).socket_by_member == old(world).socket_by_member,
{
    let mut bucket: VecDeque<i64> = match world.ip_connections.remove(ip) {
        Some(b) => b,
        None => VecDeque::new(),
    };
    let len = bucket.len();
    let over_rate = rate_limit > 0 && len >= rate_limit && {
        let t = bucket[len - rate_limit];
        (now as i128) - (t as i128) <= 1000
    };
    let over_concurrency = len >= connection_limit;
    let refused = over_concurrency || over_rate;
    if !refused {
        bucket.push_back(now);
    }
    world.ip_connections.insert(crate::text::to_owned_string(ip), bucket);
    proof {
        assert(world.ip_connections.map() =~= old(world).ip_connections.map().insert(
            ip@,
            world.ip_connections.map()[ip@],
        ));
    }
    refused
}

/// Decides on a connection from `ip` now; an accepted connection is
/// recorded. Returns true when the connection is refused.
pub fn check_ip_connection_limit(world: &mut World, ip: &str, connection_limit: usize, rate_limit: usize) -> (r: bool)
    ensures
        exists|now: i64|
            r == #[trigger] connection_refused(ip_bucket(*old(world), ip@), now, connection_limit, rate_limit)
                && ip_bucket(*final(world), ip@) == if r {
                ip_bucket(*old(world), ip@)
            } else {
                ip_bucket(*old(world), ip@).push(now)
            },
        final(world).ip_connections.map().contains_key(ip@),
        final(world).ip_connections.map() == old(world).ip_connections.map().insert(
            ip@,
            final(world).ip_connections.map()[ip@],
        ),
        ip_bucket(*old(world), ip@).len() >= connection_limit ==> r,
        final(world).accounts_by_socket == old(world).accounts_by_socket,
        final(world).chat_rooms == old(world).chat_rooms,
        final(world).socket_by_member == old(world).socket_by_member,
{
    let now = crate::time::common_time();
    check_ip_connection_limit_at(world, ip, connection_limit, rate_limit, now)
}

/// A connection from `ip` closed: its oldest record goes, and the address is
/// forgotten with its last record.
pub fn on_ip_disconnect(world: &mut World, ip: &str)
    ensures
        old(world).ip_connections.map().contains_key(ip@) && ip_bucket(*old(world), ip@).len() <= 1
            ==> final(world).ip_connections.map() == old(world).ip_connections.map().remove(ip@),
        old(world).ip_connections.map().contains_key(ip@) && ip_bucket(*old(world), ip@).len() > 1 ==> {
            &&& final(world).ip_connections.map().contains_key(ip@)
            &&& final(world).ip_connections.map() == old(world).ip_connections.map().insert(
                ip@,
                final(world).ip_connections.map()[ip@],
            )
            &&& ip_bucket(*final(world), ip@) == ip_bucket(*old(world), ip@).drop_first()
        },
        !old(world).ip_connections.map().contains_key(ip@) ==> final(world).ip_connections.map()
            == old(world).ip_connections.map(),
        final(world).accounts_by_socket == old(world).accounts_by_socket,
        final(world).chat_rooms == old(world).chat_rooms,
{
    if let Some(mut bucket) = world.ip_connections.remove(ip) {
        if bucket.len() > 1 {
            bucket.pop_front();
            world.ip_connections.insert(crate::text::to_owned_string(ip), bucket);
            proof {
                assert(world.ip_connections.map() =~= old(world).ip_connections.map().insert(
                    ip@,
                    world.ip_connections.map()[ip@],
                ));
                assert(ip_bucket(*world, ip@) =~= ip_bucket(*old(world), ip@).drop_first());
            }
        }
    }
}

/// The window of a rate limiter after one more message at time `now`: the
/// oldest time leaves and `now` comes in.
pub open spec fn window_step(w: Seq<i64>, now: i64) -> Seq<i64> {
    if w.len() > 0 {
        w.drop_first().push(now)
    } else {
        seq![now]
    }
}

/// The oldest time of a window, or 0.
pub open spec fn window_oldest(w: Seq<i64>) -> i64 {
    if w.len() > 0 {
        w[0]
    } else {
        0
    }
}

/// Sliding window message rate limiter: at most `limit` messages a second.
pub struct MessageRateLimiter {
    bucket: VecDeque<i64>,
    limit: usize,
}

impl MessageRateLimiter {
    /// The times of the last messages, oldest first.
    pub closed spec fn window(&self) -> Seq<i64> {
        self.bucket@
    }

    pub closed spec fn spec_limit(&self) -> usize {
        self.limit
    }

    /// A limiter whose window holds `limit` times 0.
    pub fn new(limit: usize) -> (r: Self)
        ensures
            r.window() == Seq::new(limit as nat, |i: int| 0i64),
            r.spec_limit() == limit,
    {
        let mut bucket: VecDeque<i64> = VecDeque::with_capacity(limit);
        let mut i: usize = 0;
        while i < limit
            invariant
                i <= limit,
                bucket@ == Seq::new(i as nat, |j: int| 0i64),
            decreases limit - i,
        {
            bucket.push_back(0);
            i += 1;
            assert(bucket@ =~= Seq::new(i as nat, |j: int| 0i64));
        }
        MessageRateLimiter { bucket, limit }
    }

    /// Records a message at time `now`; true when it is over the limit, that
    /// is when the oldest time of the window is within a second of `now`.
    pub fn check_at(&mut self, now: i64) -> (r: bool)
        ensures
            r == (now - window_oldest(old(self).window()) <= 1000 && old(self).spec_limit() > 0),
            final(self).window() == window_step(old(self).window(), now),
            final(self).spec_limit() == old(self).spec_limit(),
    {
        let last = match self.bucket.pop_front() {
            Some(t) => t,
            None => 0,
        };
        self.bucket.push_back(now);
        proof {
            assert(self.window() =~= window_step(old(self).window(), now));
        }
        (now as i128) - (last as i128) <= 1000 && self.limit > 0
    }

    /// Records a message now; true when it is over the limit.
    pub fn check(&mut self) -> (r: bool)
        ensures
            exists|now: i64|
                r == (now - window_oldest(old(self).window()) <= 1000 && old(self).spec_limit() > 0)
                    && final(self).window() == #[trigger] window_step(old(self).window(), now),
            final(self).spec_limit() == old(self).spec_limit(),
            old(self).spec_limit() == 0 ==> !r,
    {
        let now = crate::time::common_time();
        self.check_at(now)
    }
}

/// The window after messages at the times `ts`, in order.
pub open spec fn window_after(w: Seq<i64>, ts: Seq<i64>) -> Seq<i64>
    decreases ts.len(),
{
    if ts.len() == 0 {
        w
    } else {
        window_step(window_after(w, ts.drop_last()), ts.last())
    }
}

/// The rate limiter's window is a sliding window: after messages at the times
/// `ts`, a limiter made with `limit > 0` holds the last `limit` entries of
/// `limit` zeros followed by `ts`. So a message is over the limit exactly when
/// the message `limit` places before it (or time 0, early on) came within a
/// second.
pub proof fn law_rate_limiter_window(limit: usize, ts: Seq<i64>)
    requires
        limit > 0,
    ensures
        window_after(Seq::new(limit as nat, |i: int| 0i64), ts) == (Seq::new(limit as nat, |i: int| 0i64)
            + ts).subrange(ts.len() as int, ts.len() + limit),
    decreases ts.len(),
{
    let z = Seq::new(limit as nat, |i: int| 0i64);
    if ts.len() > 0 {
        law_rate_limiter_window(limit, ts.drop_last());
        let prev = (z + ts.drop_last()).subrange(ts.len() - 1, ts.len() - 1 + limit);
        assert(prev.len() > 0);
        assert(prev.drop_first().push(ts.last()) =~= (z + ts).subrange(ts.len() as int, ts.len() + limit));
    } else {
        assert(z =~= (z + ts).subrange(0, limit as int));
    }
}

/// The verdict on a message over successive calls: after messages at the
/// times `ts`, a limiter made with `limit > 0` finds a message at `now` over
/// the limit exactly when the message `limit` places before it came within a
/// second of `now`; while fewer than `limit` messages came before, the
/// comparison is with time 0, so none is over the limit once the clock is
/// past one second.
pub proof fn law_rate_limiter_verdict(limit: usize, ts: Seq<i64>, now: i64)
    requires
        limit > 0,
    ensures
        window_oldest(window_after(Seq::new(limit as nat, |i: int| 0i64), ts)) == if ts.len() >= limit {
            ts[ts.len() - limit]
        } else {
            0i64
        },
        now > 1000 && ts.len() < limit ==> !(now - window_oldest(
            window_after(Seq::new(limit as nat, |i: int| 0i64), ts),
        ) <= 1000),
{
    law_rate_limiter_window(limit, ts);
    let z = Seq::new(limit as nat, |i: int| 0i64);
    let w = (z + ts).subrange(ts.len() as int, ts.len() + limit);
    assert(w.len() == limit);
    assert(w[0] == (z + ts)[ts.len() as int]);
}

/// The last `,`-separated part of a text.
pub open spec fn last_segment(s: Seq<char>) -> Seq<char>
    decreases s.len(),
{
    if s.len() == 0 {
        s
    } else if s.last() == ',' {
        Seq::empty()
    } else {
        last_segment(s.drop_last()).push(s.last())
    }
}

/// The client address: the last hop of `X-Forwarded-For` when it is not
/// blank after trimming, else the remote address, else `unknown`.
pub open spec fn spec_extract_ip(remote: Option<Seq<char>>, xff: Option<Seq<char>>) -> Seq<char> {
    match xff {
        Some(x) if spec_trim(last_segment(x)).len() > 0 => spec_trim(last_segment(x)),
        _ => match remote {
            Some(r) => r,
            None => "unknown"@,
        },
    }
}

proof fn lemma_last_segment(s: Seq<char>, k: int)
    requires
        0 <= k <= s.len(),
        forall|j: int| k <= j < s.len() ==> s[j] != ',',
        k == 0 || s[k - 1] == ',',
    ensures
        last_segment(s) == s.subrange(k, s.len() as int),
    decreases s.len(),
{
    if s.len() > k {
        lemma_last_segment(s.drop_last(), k);
        assert(s.drop_last().subrange(k, s.len() - 1).push(s.last()) =~= s.subrange(k, s.len() as int));
    } else if s.len() > 0 {
        assert(s.last() == ',');
    }
}

/// Extracts the client address from the socket headers.
pub fn extract_ip(remote: Option<&str>, x_forwarded_for: Option<&str>) -> (r: String)
    ensures
        r@ == spec_extract_ip(
            match remote {
                Some(s) => Some(s@),
                None => None,
            },
            match x_forwarded_for {
                Some(s) => Some(s@),
                None => None,
            },
        ),
{
    if let Some(xff) = x_forwarded_for {
        let v = crate::text::chars_of(xff);
        let mut k: usize = v.len();
        while k > 0 && v[k - 1] != ','
            invariant
                k <= v.len(),
                forall|j: int| k <= j < v.len() ==> v@[j] != ',',
            decreases k,
        {
            k -= 1;
        }
        proof {
            lemma_last_segment(v@, k as int);
        }
        let last = crate::text::string_from_range(&v, k, v.len());
        let trimmed = crate::text::trim(last.as_str());
        if crate::text::char_count(trimmed.as_str()) != 0 {
            return trimmed;
        }
        assert(trimmed@.len() == 0);
    }
    match remote {
        Some(r) => crate::text::to_owned_string(r),
        None => crate::text::to_owned_string("unknown"),
    }
}

} // verus!
