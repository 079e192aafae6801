use crate::reply::{too_many_requests, Reply};
use crate::request::ClientAddress;
use linked_hash_map::LinkedHashMap;
use vstd::prelude::*;

verus! {

#[verifier::external_type_specification]
#[verifier::external_body]
#[verifier::reject_recursive_types(K)]
#[verifier::reject_recursive_types(V)]
#[verifier::reject_recursive_types(S)]
pub struct ExLinkedHashMap<K, V, S>(LinkedHashMap<K, V, S>);

/// A client's key in the rate window: its IP octets and port.
pub type ClientKey = (Vec<u8>, u16);

/// A window entry's value: the request count and the time of the latest
/// request, in milliseconds.
pub type WindowValue = (u64, u64);

pub type Window = LinkedHashMap<ClientKey, WindowValue>;

/// The entries of a rate window in insertion order, each key by its view.
pub uninterp spec fn window_entries(m: Window) -> Seq<((Seq<u8>, u16), WindowValue)>;

pub open spec fn key_view(k: ClientKey) -> (Seq<u8>, u16) {
    (k.0@, k.1)
}

/// Relies on `LinkedHashMap::new`: an empty map.
#[verifier::external_body]
fn window_new() -> (r: Window)
    ensures
        window_entries(r) == Seq::<((Seq<u8>, u16), WindowValue)>::empty(),
{
    LinkedHashMap::new()
}

/// Relies on `LinkedHashMap::front`: the oldest entry, its value copied.
#[verifier::external_body]
fn window_front(m: &Window) -> (r: Option<WindowValue>)
    ensures
        window_entries(*m).len() == 0 ==> r is None,
        window_entries(*m).len() > 0 ==> r == Some(window_entries(*m)[0].1),
{
    m.front().map(|(_, v)| *v)
}

/// Relies on `LinkedHashMap::pop_front`: removes the oldest entry.
#[verifier::external_body]
fn window_pop_front(m: &mut Window)
    requires
        window_entries(*old(m)).len() > 0,
    ensures
        window_entries(*final(m)) == window_entries(*old(m)).drop_first(),
{
    m.pop_front();
}

/// Relies on `LinkedHashMap::get`: the value stored under `k`, copied.
#[verifier::external_body]
fn window_get(m: &Window, k: &ClientKey) -> (r: Option<WindowValue>)
    ensures
        match r {
            Some(v) => exists|i: int|
                0 <= i < window_entries(*m).len() && window_entries(*m)[i] == (key_view(*k), v),
            None => forall|i: int|
                0 <= i < window_entries(*m).len() ==> window_entries(*m)[i].0 != key_view(*k),
        },
{
    m.get(k).copied()
}

/// Relies on `LinkedHashMap::get_mut`: replaces the value stored under `k`
/// and keeps the entry where it is in the order.
#[verifier::external_body]
fn window_set(m: &mut Window, k: &ClientKey, v: WindowValue)
    ensures
        window_entries(*final(m)) == window_entries(*old(m)).map_values(
            |e: ((Seq<u8>, u16), WindowValue)|
                if e.0 == key_view(*k) {
                    (e.0, v)
                } else {
                    e
                },
        ),
{
    if let Some(slot) = m.get_mut(k) {
        *slot = v;
    }
}

/// Relies on `LinkedHashMap::insert`: a key that is not yet present is
/// added as the newest entry.
#[verifier::external_body]
fn window_insert(m: &mut Window, k: ClientKey, v: WindowValue)
    requires
        forall|i: int|
            0 <= i < window_entries(*old(m)).len() ==> window_entries(*old(m))[i].0 != key_view(k),
    ensures
        window_entries(*final(m)) == window_entries(*old(m)).push((key_view(k), v)),
{
    m.insert(k, v);
}

/// Whether no two entries share a key.
pub open spec fn keys_unique(s: Seq<((Seq<u8>, u16), WindowValue)>) -> bool {
    forall|i: int, j: int| 0 <= i < j < s.len() ==> s[i].0 != s[j].0
}

/// Whether an entry seen at `seen` is older than the window at `now`: the
/// whole seconds elapsed exceed `window_sec` (no time elapses backwards).
pub open spec fn expired(now: u64, seen: u64, window_sec: u64) -> bool {
    (if now >= seen {
        now - seen
    } else {
        0
    }) / 1000 > window_sec as int
}

/// The entries left after dropping expired ones from the oldest end, up to
/// the first that has not expired.
pub open spec fn evict(s: Seq<((Seq<u8>, u16), WindowValue)>, now: u64, window_sec: u64) -> Seq<
    ((Seq<u8>, u16), WindowValue),
>
    decreases s.len(),
{
    if s.len() > 0 && expired(now, s[0].1.1, window_sec) {
        evict(s.drop_first(), now, window_sec)
    } else {
        s
    }
}

/// The count recorded for `key`, zero where it has no entry.
pub open spec fn count_of(s: Seq<((Seq<u8>, u16), WindowValue)>, key: (Seq<u8>, u16)) -> u64 {
    if exists|i: int| 0 <= i < s.len() && s[i].0 == key {
        s[choose|i: int| 0 <= i < s.len() && s[i].0 == key].1.0
    } else {
        0
    }
}

/// A count raised by one, stopping at the largest value.
pub open spec fn bump(c: u64) -> u64 {
    if c == u64::MAX {
        c
    } else {
        (c + 1) as u64
    }
}

/// The entries after a request of `key` at `now` was counted in `s`.
pub open spec fn record(s: Seq<((Seq<u8>, u16), WindowValue)>, key: (Seq<u8>, u16), now: u64) -> Seq<
    ((Seq<u8>, u16), WindowValue),
> {
    if exists|i: int| 0 <= i < s.len() && s[i].0 == key {
        s.map_values(
            |e: ((Seq<u8>, u16), WindowValue)|
                if e.0 == key {
                    (e.0, (bump(e.1.0), now))
                } else {
                    e
                },
        )
    } else {
        s.push((key, (1, now)))
    }
}

proof fn lemma_evict_suffix(s: Seq<((Seq<u8>, u16), WindowValue)>, now: u64, window_sec: u64)
    requires
        keys_unique(s),
    ensures
        keys_unique(evict(s, now, window_sec)),
    decreases s.len(),
{
    if s.len() > 0 && expired(now, s[0].1.1, window_sec) {
        let t = s.drop_first();
        assert forall|i: int, j: int| 0 <= i < j < t.len() implies t[i].0 != t[j].0 by {
            assert(t[i] == s[i + 1] && t[j] == s[j + 1]);
        }
        lemma_evict_suffix(t, now, window_sec);
    }
}

/// Limits each client to a number of requests per sliding window of time.
pub struct RateLimiter {
    connections: Window,
    limit: u64,
    window_sec: u64,
}

impl RateLimiter {
    /// The window's entries, oldest first.
    pub closed spec fn entries(&self) -> Seq<((Seq<u8>, u16), WindowValue)> {
        window_entries(self.connections)
    }

    pub closed spec fn limit(&self) -> u64 {
        self.limit
    }

    pub closed spec fn window_sec(&self) -> u64 {
        self.window_sec
    }

    pub open spec fn wf(&self) -> bool {
        keys_unique(self.entries())
    }

    pub fn new(limit: u64, window_sec: u64) -> (r: RateLimiter)
        ensures
            r.wf(),
            r.entries().len() == 0,
            r.limit() == limit,
            r.window_sec() == window_sec,
    {
        RateLimiter { connections: window_new(), limit, window_sec }
    }

    /// Counts a request of `client` at `now_ms` (milliseconds on a monotonic
    /// clock), after dropping expired entries from the oldest end, and says
    /// whether the client is still within its limit.
    pub fn register_request(&mut self, client: &ClientAddress, now_ms: u64) -> (r: bool)
        requires
            old(self).wf(),
        ensures
            final(self).wf(),
            final(self).limit() == old(self).limit(),
            final(self).window_sec() == old(self).window_sec(),
            final(self).entries() == record(
                evict(old(self).entries(), now_ms, old(self).window_sec()),
                (client.ip@, client.port),
                now_ms,
            ),
            r == (count_of(final(self).entries(), (client.ip@, client.port)) <= old(self).limit()),
    {
        let ghost start = self.entries();
        proof {
            lemma_evict_suffix(start, now_ms, self.window_sec);
        }
        loop
            invariant
                self.window_sec == old(self).window_sec,
                self.limit == old(self).limit,
                evict(start, now_ms, self.window_sec) == evict(self.entries(), now_ms, self.window_sec),
            ensures
                self.window_sec == old(self).window_sec,
                self.limit == old(self).limit,
                evict(start, now_ms, self.window_sec) == self.entries(),
            decreases self.entries().len(),
        {
            match window_front(&self.connections) {
                Some(front) => {
                    if front.1 <= now_ms && (now_ms - front.1) / 1000 > self.window_sec {
                        window_pop_front(&mut self.connections);
                    } else {
                        break ;
                    }
                },
                None => {
                    break ;
                },
            }
        }
        let ghost kept = self.entries();
        assert(kept == evict(start, now_ms, self.window_sec));
        let key = (client.duplicate().ip, client.port);
        assert(key_view(key) == (client.ip@, client.port));
        let count = match window_get(&self.connections, &key) {
            Some(value) => {
                let c = if value.0 == u64::MAX {
                    value.0
                } else {
                    value.0 + 1
                };
                window_set(&mut self.connections, &key, (c, now_ms));
                c
            },
            None => {
                window_insert(&mut self.connections, key, (1, now_ms));
                1
            },
        };
        proof {
            let k = (client.ip@, client.port);
            let fin = self.entries();
            if exists|i: int| 0 <= i < kept.len() && kept[i].0 == k {
                let i = choose|i: int| 0 <= i < kept.len() && kept[i].0 == k;
                assert(fin[i].0 == k);
                assert forall|a: int, b: int| 0 <= a < b < fin.len() implies fin[a].0 != fin[b].0 by {
                    assert(fin[a].0 == kept[a].0 && fin[b].0 == kept[b].0);
                }
                let j = choose|j: int| 0 <= j < fin.len() && fin[j].0 == k;
                assert(j == i);
            } else {
                let n = kept.len() as int;
                assert(fin[n].0 == k);
                let j = choose|j: int| 0 <= j < fin.len() && fin[j].0 == k;
                assert(j == n);
            }
        }
        count <= self.limit
    }
}

} // verus!
