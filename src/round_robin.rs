use crate::algorithms::{names_address, Context, RequestForwarder};
use crate::request::RequestInfo;
use vstd::arithmetic::div_mod::*;
use vstd::prelude::*;

verus! {

/// Hands out the selectable addresses in turn, by a counter that each
/// selection advances.
#[derive(Debug)]
pub struct RoundRobin {
    rrc: usize,
}

/// The counter after one selection; it wraps to zero past the largest value.
pub open spec fn rr_next(c: usize) -> usize {
    if c == usize::MAX {
        0
    } else {
        (c + 1) as usize
    }
}

/// The positions chosen by `k` consecutive selections among `n` addresses,
/// starting from counter `c`.
pub open spec fn rr_picks(c: usize, n: nat, k: nat) -> Seq<int>
    decreases k,
{
    if k == 0 {
        Seq::empty()
    } else {
        seq![(c as int) % (n as int)] + rr_picks(rr_next(c), n, (k - 1) as nat)
    }
}

impl RoundRobin {
    pub closed spec fn counter(&self) -> usize {
        self.rrc
    }

    pub fn new() -> (r: RoundRobin)
        ensures
            r.counter() == 0,
    {
        RoundRobin { rrc: 0 }
    }

    /// Chooses the address at the counter's value modulo the number of
    /// addresses, and advances the counter.
    pub fn select_backend(&mut self, _request: &RequestInfo, context: &Context) -> (r:
        RequestForwarder)
        requires
            context.backend_addresses@.len() > 0,
        ensures
            names_address(
                context.backend_addresses@,
                old(self).counter() as int % context.backend_addresses@.len() as int,
                r.backend_address@,
            ),
            r.set_cookie is None,
            final(self).counter() == rr_next(old(self).counter()),
    {
        let len = context.backend_addresses.len();
        let idx = self.rrc % len;
        if self.rrc == usize::MAX {
            self.rrc = 0;
        } else {
            self.rrc = self.rrc + 1;
        }
        RequestForwarder::new(&context.backend_addresses[idx])
    }
}

proof fn lemma_rr_picks_index(c: usize, n: nat, k: nat)
    requires
        n > 0,
        k > 0 ==> c as int + k - 1 <= usize::MAX,
    ensures
        rr_picks(c, n, k).len() == k,
        forall|i: int| 0 <= i < k ==> #[trigger] rr_picks(c, n, k)[i] == (c as int + i) % (n as int),
    decreases k,
{
    if k > 0 {
        if k > 1 {
            assert(c < usize::MAX);
            lemma_rr_picks_index(rr_next(c), n, (k - 1) as nat);
        } else {
            lemma_rr_picks_index(rr_next(c), n, 0);
        }
        let rest = rr_picks(rr_next(c), n, (k - 1) as nat);
        assert forall|i: int| 0 <= i < k implies #[trigger] rr_picks(c, n, k)[i] == (c as int + i) % (
        n as int) by {
            if i > 0 {
                assert(rr_picks(c, n, k)[i] == rest[i - 1]);
            }
        }
    }
}

/// Round robin is fair: `n` consecutive selections among `n` addresses,
/// while the counter does not wrap, choose every position exactly once.
pub proof fn lemma_round_robin_covers_each_once(c: usize, n: nat)
    requires
        n > 0,
        c as int + n - 1 <= usize::MAX,
    ensures
        rr_picks(c, n, n).len() == n,
        rr_picks(c, n, n).no_duplicates(),
        forall|t: int| 0 <= t < n ==> rr_picks(c, n, n).contains(t),
{
    lemma_rr_picks_index(c, n, n);
    let p = rr_picks(c, n, n);
    let ni = n as int;
    assert forall|i: int, j: int| 0 <= i < n && 0 <= j < n && i != j implies p[i] != p[j] by {
        if p[i] == p[j] {
            lemma_mod_equivalence(c as int + j, c as int + i, ni);
            lemma_mod_equivalence(c as int + i, c as int + j, ni);
            if i < j {
                lemma_small_mod((j - i) as nat, n);
                assert((c as int + j) - (c as int + i) == j - i);
            } else {
                lemma_small_mod((i - j) as nat, n);
                assert((c as int + i) - (c as int + j) == i - j);
            }
        }
    }
    assert forall|t: int| 0 <= t < n implies p.contains(t) by {
        let r = (c as int) % ni;
        let q = (c as int) / ni;
        lemma_fundamental_div_mod(c as int, ni);
        lemma_mod_pos_bound(c as int, ni);
        let i = if t >= r {
            t - r
        } else {
            ni - r + t
        };
        if t >= r {
            assert(c as int + i == ni * q + t);
            lemma_mod_multiples_vanish(q, t, ni);
        } else {
            assert(c as int + i == ni * (q + 1) + t) by (nonlinear_arith)
                requires
                    c as int == ni * q + r,
                    i == ni - r + t,
            ;
            lemma_mod_multiples_vanish(q + 1, t, ni);
        }
        lemma_small_mod(t as nat, n);
        assert(p[i] == t);
    }
}

} // verus!
