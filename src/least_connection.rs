use crate::algorithms::{names_address, Context, RequestForwarder};
use crate::request::RequestInfo;
use vstd::prelude::*;

verus! {

/// The count recorded for `a` in `m`; zero where none is.
pub open spec fn count_in(m: Map<Seq<char>, nat>, a: Seq<char>) -> nat {
    if m.contains_key(a) {
        m[a]
    } else {
        0
    }
}

/// The counters after a connection to `a` opened.
pub open spec fn after_open(m: Map<Seq<char>, nat>, a: Seq<char>) -> Map<Seq<char>, nat> {
    m.insert(a, count_in(m, a) + 1)
}

/// The counters after a connection to `a` closed: a counter that is present
/// and positive goes down by one, nothing else changes.
pub open spec fn after_close(m: Map<Seq<char>, nat>, a: Seq<char>) -> Map<Seq<char>, nat> {
    if m.contains_key(a) && m[a] > 0 {
        m.insert(a, (m[a] - 1) as nat)
    } else {
        m
    }
}

/// Whether `addr` is the first of `addrs` whose counter in `m` is smallest.
pub open spec fn least_pick(m: Map<Seq<char>, nat>, addrs: Seq<String>, addr: Seq<char>) -> bool {
    exists|i: int|
        {
            &&& names_address(addrs, i, addr)
            &&& forall|j: int|
                0 <= j < addrs.len() ==> count_in(m, addrs[i]@) <= count_in(m, #[trigger] addrs[j]@)
            &&& forall|j: int| 0 <= j < i ==> count_in(m, addrs[i]@) < count_in(m, #[trigger] addrs[j]@)
        }
}

/// A connection event as the upstream client reports it: whether a
/// connection opened (`true`) or closed (`false`), and its authority.
pub open spec fn apply_event(m: Map<Seq<char>, nat>, e: (bool, Seq<char>)) -> Map<Seq<char>, nat> {
    if e.0 {
        after_open(m, e.1)
    } else {
        after_close(m, e.1)
    }
}

/// The counters after `events`, in order, starting from none.
pub open spec fn replay(events: Seq<(bool, Seq<char>)>) -> Map<Seq<char>, nat>
    decreases events.len(),
{
    if events.len() == 0 {
        Map::empty()
    } else {
        apply_event(replay(events.drop_last()), events.last())
    }
}

/// How many events in `events` are of kind `opened` for authority `u`.
pub open spec fn events_seen(events: Seq<(bool, Seq<char>)>, opened: bool, u: Seq<char>) -> nat
    decreases events.len(),
{
    if events.len() == 0 {
        0
    } else {
        events_seen(events.drop_last(), opened, u) + if events.last() == (opened, u) {
            1nat
        } else {
            0nat
        }
    }
}

/// The counter of an upstream is the number of its connections that opened
/// less the number that closed, as long as no connection closes before it
/// opened (every prefix of the events has no more closes than opens).
pub proof fn lemma_counter_is_opens_minus_closes(events: Seq<(bool, Seq<char>)>, u: Seq<char>)
    requires
        forall|k: int|
            0 <= k <= events.len() ==> events_seen(#[trigger] events.take(k), false, u)
                <= events_seen(events.take(k), true, u),
    ensures
        count_in(replay(events), u) == events_seen(events, true, u) - events_seen(events, false, u),
        events_seen(events, false, u) <= events_seen(events, true, u),
    decreases events.len(),
{
    assert(events.take(events.len() as int) =~= events);
    if events.len() > 0 {
        let p = events.drop_last();
        let e = events.last();
        assert forall|k: int| 0 <= k <= p.len() implies events_seen(#[trigger] p.take(k), false, u)
            <= events_seen(p.take(k), true, u) by {
            assert(p.take(k) =~= events.take(k));
        }
        lemma_counter_is_opens_minus_closes(p, u);
        let m = replay(p);
        if e.1 != u {
            assert(count_in(apply_event(m, e), u) == count_in(m, u));
        }
    }
}

/// Sends each request to the selectable address with the fewest open
/// upstream connections, the first such address on a tie.
pub struct LeastConnection {
    connections: Vec<(String, usize)>,
    model: Ghost<Map<Seq<char>, nat>>,
}

impl View for LeastConnection {
    type V = Map<Seq<char>, nat>;

    /// The open-connection counter of each authority seen so far.
    closed spec fn view(&self) -> Map<Seq<char>, nat> {
        self.model@
    }
}

impl LeastConnection {
    pub closed spec fn wf(&self) -> bool {
        &&& forall|i: int, j: int|
            0 <= i < j < self.connections@.len() ==> self.connections@[i].0@
                != self.connections@[j].0@
        &&& forall|i: int|
            0 <= i < self.connections@.len() ==> #[trigger] self.model@.contains_key(
                self.connections@[i].0@,
            ) && self.model@[self.connections@[i].0@] == self.connections@[i].1 as nat
        &&& forall|k: Seq<char>|
            #[trigger] self.model@.contains_key(k) ==> exists|i: int|
                0 <= i < self.connections@.len() && self.connections@[i].0@ == k
    }

    pub fn new() -> (r: LeastConnection)
        ensures
            r.wf(),
            r@ == Map::<Seq<char>, nat>::empty(),
    {
        LeastConnection { connections: Vec::new(), model: Ghost(Map::empty()) }
    }

    /// The position of `authority` among the recorded counters.
    fn position_of(&self, authority: &str) -> (r: Option<usize>)
        requires
            self.wf(),
        ensures
            match r {
                Some(i) => i < self.connections@.len() && self.connections@[i as int].0@
                    == authority@,
                None => !self@.contains_key(authority@),
            },
    {
        let key = String::from_str(authority);
        let mut i: usize = 0;
        while i < self.connections.len()
            invariant
                self.wf(),
                key@ == authority@,
                i <= self.connections@.len(),
                forall|j: int| 0 <= j < i ==> self.connections@[j].0@ != authority@,
            decreases self.connections@.len() - i,
        {
            if self.connections[i].0 == key {
                return Some(i);
            }
            i = i + 1;
        }
        None
    }

    /// The open-connection counter of `authority`.
    pub fn connection_count(&self, authority: &str) -> (r: usize)
        requires
            self.wf(),
        ensures
            r as nat == count_in(self@, authority@),
    {
        match self.position_of(authority) {
            Some(i) => self.connections[i].1,
            None => 0,
        }
    }

    /// Records that a connection to `authority` opened.
    pub fn on_tcp_open(&mut self, authority: &str)
        requires
            old(self).wf(),
            count_in(old(self)@, authority@) < usize::MAX,
        ensures
            final(self).wf(),
            final(self)@ == after_open(old(self)@, authority@),
    {
        let ghost m = self.model@;
        let ghost a = authority@;
        let ghost old_conns = self.connections@;
        let ghost pos: int;
        match self.position_of(authority) {
            Some(i) => {
                let c = self.connections[i].1;
                self.connections.set(i, (String::from_str(authority), c + 1));
                self.model = Ghost(m.insert(a, (c + 1) as nat));
                proof {
                    pos = i as int;
                }
            },
            None => {
                proof {
                    assert forall|j: int| 0 <= j < old_conns.len() implies old_conns[j].0@ != a by {
                        assert(m.contains_key(old_conns[j].0@));
                    }
                }
                self.connections.push((String::from_str(authority), 1));
                self.model = Ghost(m.insert(a, 1));
                proof {
                    pos = old_conns.len() as int;
                }
            },
        }
        assert(self.connections@[pos].0@ == a);
        assert forall|j: int| 0 <= j < old_conns.len() && j != pos implies self.connections@[j]
            == old_conns[j] && old_conns[j].0@ != a by {}
        assert forall|k: Seq<char>| #[trigger] self.model@.contains_key(k) implies exists|i: int|
            0 <= i < self.connections@.len() && self.connections@[i].0@ == k by {
            if k == a {
                assert(self.connections@[pos].0@ == k);
            } else {
                assert(m.contains_key(k));
                let j = choose|j: int| 0 <= j < old_conns.len() && old_conns[j].0@ == k;
                assert(self.connections@[j].0@ == k);
            }
        }
        assert(self.model@ =~= after_open(m, a));
    }

    /// Records that a connection to `authority` closed.
    pub fn on_tcp_close(&mut self, authority: &str)
        requires
            old(self).wf(),
        ensures
            final(self).wf(),
            final(self)@ == after_close(old(self)@, authority@),
    {
        let ghost m = self.model@;
        let ghost a = authority@;
        let ghost old_conns = self.connections@;
        match self.position_of(authority) {
            Some(i) => {
                let c = self.connections[i].1;
                if c > 0 {
                    self.connections.set(i, (String::from_str(authority), c - 1));
                    self.model = Ghost(m.insert(a, (c - 1) as nat));
                    assert(self.connections@[i as int].0@ == a);
                    assert forall|j: int| 0 <= j < old_conns.len() && j != i implies self.connections@[j]
                        == old_conns[j] && old_conns[j].0@ != a by {}
                    assert forall|k: Seq<char>| #[trigger] self.model@.contains_key(k) implies exists|j: int|
                        0 <= j < self.connections@.len() && self.connections@[j].0@ == k by {
                        if k == a {
                            assert(self.connections@[i as int].0@ == k);
                        } else {
                            assert(m.contains_key(k));
                            let j = choose|j: int| 0 <= j < old_conns.len() && old_conns[j].0@ == k;
                            assert(self.connections@[j].0@ == k);
                        }
                    }
                    assert(self.model@ =~= after_close(m, a));
                }
            },
            None => {},
        }
    }

    /// Chooses the first selectable address whose counter is smallest.
    pub fn select_backend(&self, _request: &RequestInfo, context: &Context) -> (r: RequestForwarder)
        requires
            self.wf(),
            context.backend_addresses@.len() > 0,
        ensures
            least_pick(self@, context.backend_addresses@, r.backend_address@),
            r.set_cookie is None,
    {
        let addrs = &context.backend_addresses;
        let mut best: usize = 0;
        let mut best_count = self.connection_count(addrs[0].as_str());
        let mut i: usize = 1;
        while i < addrs.len()
            invariant
                self.wf(),
                addrs@.len() > 0,
                best < i <= addrs@.len(),
                best_count as nat == count_in(self@, addrs@[best as int]@),
                forall|j: int| 0 <= j < i ==> best_count <= count_in(self@, #[trigger] addrs@[j]@),
                forall|j: int| 0 <= j < best ==> best_count < count_in(self@, #[trigger] addrs@[j]@),
            decreases addrs@.len() - i,
        {
            let c = self.connection_count(addrs[i].as_str());
            if c < best_count {
                best = i;
                best_count = c;
            }
            i = i + 1;
        }
        let r = RequestForwarder::new(&addrs[best]);
        assert(names_address(context.backend_addresses@, best as int, r.backend_address@));
        r
    }
}

} // verus!
