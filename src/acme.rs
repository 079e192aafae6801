use crate::reply::{not_found, ok_text, Reply};
use crate::text::{occurs_at, occurs_at_exec, substring};
use vstd::prelude::*;

verus! {

/// The path prefix under which HTTP-01 challenges are served.
pub open spec fn challenge_prefix() -> Seq<char> {
    seq![
        '/', '.', 'w', 'e', 'l', 'l', '-', 'k', 'n', 'o', 'w', 'n', '/', 'a', 'c', 'm', 'e', '-', 'c',
        'h', 'a', 'l', 'l', 'e', 'n', 'g', 'e', '/',
    ]
}

/// The proof registered first for `token` among `s` from position `i` on.
pub open spec fn proof_from(s: Seq<(Seq<char>, Seq<char>)>, token: Seq<char>, i: int) -> Option<
    Seq<char>,
>
    decreases s.len() - i,
{
    if i < 0 || i >= s.len() {
        None
    } else if s[i].0 == token {
        Some(s[i].1)
    } else {
        proof_from(s, token, i + 1)
    }
}

/// The position of the first challenge for `token` from position `i` on.
pub open spec fn challenge_position(s: Seq<(Seq<char>, Seq<char>)>, token: Seq<char>, i: int) -> Option<
    int,
>
    decreases s.len() - i,
{
    if i < 0 || i >= s.len() {
        None
    } else if s[i].0 == token {
        Some(i)
    } else {
        challenge_position(s, token, i + 1)
    }
}

/// The challenges after the first one for `token` is taken away.
pub open spec fn without_challenge(s: Seq<(Seq<char>, Seq<char>)>, token: Seq<char>) -> Seq<
    (Seq<char>, Seq<char>),
> {
    match challenge_position(s, token, 0) {
        Some(i) => s.remove(i),
        None => s,
    }
}

/// The position just after the last `/` of `p`, at or before `end`; zero
/// where there is none.
pub open spec fn after_last_slash(p: Seq<char>, end: int) -> int
    decreases end,
{
    if end <= 0 || end > p.len() {
        0
    } else if p[end - 1] == '/' {
        end
    } else {
        after_last_slash(p, end - 1)
    }
}

/// The last `/`-separated segment of a path.
pub open spec fn last_segment(p: Seq<char>) -> Seq<char> {
    p.subrange(after_last_slash(p, p.len() as int), p.len() as int)
}

proof fn lemma_after_last_slash_bounds(p: Seq<char>, end: int)
    requires
        0 <= end <= p.len(),
    ensures
        0 <= after_last_slash(p, end) <= end,
    decreases end,
{
    if end > 0 && p[end - 1] != '/' {
        lemma_after_last_slash_bounds(p, end - 1);
    }
}

struct OpenChallenge {
    token: String,
    proof: String,
}

/// A pending ACME renewal's report to the serving side.
#[derive(Debug)]
pub enum RenewalEvent {
    /// A challenge token and its proof, to be served until the next event.
    Publish(String, String),
    /// The renewal ended, with a certificate or an error.
    Finished,
}

/// The HTTP-01 challenges that are open, token and proof each, in the order
/// they were added.
pub struct AcmeHandler {
    challenges: Vec<OpenChallenge>,
}

impl View for AcmeHandler {
    type V = Seq<(Seq<char>, Seq<char>)>;

    closed spec fn view(&self) -> Seq<(Seq<char>, Seq<char>)> {
        self.challenges@.map_values(|c: OpenChallenge| (c.token@, c.proof@))
    }
}

impl AcmeHandler {
    pub fn new() -> (r: AcmeHandler)
        ensures
            r@.len() == 0,
    {
        AcmeHandler { challenges: Vec::new() }
    }

    /// Opens a challenge: `token` is answered with `proof` from now on.
    pub fn add_challenge(&mut self, token: &str, proof: String)
        ensures
            final(self)@ == old(self)@.push((token@, proof@)),
    {
        let challenge = OpenChallenge { token: String::from_str(token), proof };
        self.challenges.push(challenge);
        assert(self@ =~= old(self)@.push((token@, proof@)));
    }

    /// The position of the first open challenge for `token`.
    fn position_of(&self, token: &str) -> (r: Option<usize>)
        ensures
            match r {
                Some(i) => challenge_position(self@, token@, 0) == Some(i as int) && i
                    < self@.len(),
                None => challenge_position(self@, token@, 0) is None,
            },
            challenge_position(self@, token@, 0) == match r {
                Some(i) => Some(i as int),
                None => None::<int>,
            },
            proof_from(self@, token@, 0) == match r {
                Some(i) => Some(self@[i as int].1),
                None => None::<Seq<char>>,
            },
    {
        let key = String::from_str(token);
        let mut i: usize = 0;
        while i < self.challenges.len()
            invariant
                key@ == token@,
                i <= self@.len(),
                self@.len() == self.challenges@.len(),
                challenge_position(self@, token@, 0) == challenge_position(self@, token@, i as int),
                proof_from(self@, token@, 0) == proof_from(self@, token@, i as int),
            decreases self@.len() - i,
        {
            if self.challenges[i].token == key {
                return Some(i);
            }
            i = i + 1;
        }
        None
    }

    /// The proof of the first open challenge for `token`.
    pub fn get_proof_for_challenge(&self, token: &str) -> (r: Option<String>)
        ensures
            match r {
                Some(p) => proof_from(self@, token@, 0) == Some(p@),
                None => proof_from(self@, token@, 0) is None,
            },
    {
        match self.position_of(token) {
            Some(i) => Some(self.challenges[i].proof.clone()),
            None => None,
        }
    }

    /// Closes the first open challenge for `token`, if there is one.
    pub fn remove_challenge(&mut self, token: &str)
        ensures
            final(self)@ == without_challenge(old(self)@, token@),
    {
        match self.position_of(token) {
            Some(i) => {
                self.challenges.remove(i);
                assert(self@ =~= old(self)@.remove(i as int));
            },
            None => {},
        }
    }

    /// Whether a request path is under the ACME challenge prefix.
    pub fn is_challenge(&self, path: &str) -> (r: bool)
        ensures
            r == occurs_at(path@, challenge_prefix(), 0),
    {
        let prefix = "/.well-known/acme-challenge/";
        proof {
            reveal_strlit("/.well-known/acme-challenge/");
            assert(prefix@ =~= challenge_prefix());
        }
        occurs_at_exec(path, prefix, 0)
    }

    /// Answers a request for an ACME challenge: `None` for a path outside
    /// the challenge prefix; otherwise 200 with the proof registered for the
    /// path's last segment, or 404 when there is none.
    pub fn respond_to_challenge(&self, path: &str) -> (r: Option<Reply>)
        ensures
            !occurs_at(path@, challenge_prefix(), 0) ==> r is None,
            occurs_at(path@, challenge_prefix(), 0) ==> match proof_from(
                self@,
                last_segment(path@),
                0,
            ) {
                Some(p) => r matches Some(reply) && reply.status == 200 && reply.body@ == p,
                None => r matches Some(reply) && reply.status == 404,
            },
    {
        if !self.is_challenge(path) {
            return None;
        }
        let n = path.unicode_len();
        let mut end: usize = n;
        while end > 0 && path.get_char(end - 1) != '/'
            invariant
                n == path@.len(),
                end <= n,
                after_last_slash(path@, n as int) == after_last_slash(path@, end as int),
            decreases end,
        {
            end = end - 1;
        }
        proof {
            lemma_after_last_slash_bounds(path@, n as int);
        }
        let token = substring(path, end, n);
        match self.get_proof_for_challenge(token.as_str()) {
            Some(proof) => Some(ok_text(proof)),
            None => Some(not_found()),
        }
    }

    /// Applies one report of a running renewal: the token published last,
    /// held in `pending`, stops being served, and a newly published one is
    /// opened. Returns whether the renewal has finished.
    pub fn apply_renewal_event(&mut self, pending: &mut Option<String>, event: RenewalEvent) -> (r:
        bool)
        ensures
            r == (event is Finished),
            match event {
                RenewalEvent::Publish(t, p) => {
                    &&& final(self)@ == match *old(pending) {
                        Some(old_t) => without_challenge(old(self)@, old_t@),
                        None => old(self)@,
                    }.push((t@, p@))
                    &&& *final(pending) == Some(t)
                },
                RenewalEvent::Finished => {
                    &&& final(self)@ == match *old(pending) {
                        Some(old_t) => without_challenge(old(self)@, old_t@),
                        None => old(self)@,
                    }
                    &&& *final(pending) is None
                },
            },
    {
        match pending {
            Some(t) => self.remove_challenge(t.as_str()),
            None => {},
        }
        match event {
            RenewalEvent::Publish(token, proof) => {
                self.add_challenge(token.as_str(), proof);
                *pending = Some(token);
                false
            },
            RenewalEvent::Finished => {
                *pending = None;
                true
            },
        }
    }
}

/// What the renewal worker does next with an order.
#[derive(Debug)]
pub enum RenewalAction {
    /// The authority confirmed the order: finalize it and download the
    /// certificate.
    Finalize,
    /// Publish this token and proof, ask the authority to validate, then
    /// refresh the order.
    Publish(String, String),
    /// The order offers no challenge to answer.
    Fail,
}

/// One round of the renewal worker: an order whose validations are
/// confirmed is finalized; otherwise the HTTP challenge of its first
/// authorization, if it has one, is published.
pub fn renewal_step(confirmed: bool, first_challenge: Option<(String, String)>) -> (r: RenewalAction)
    ensures
        confirmed ==> r is Finalize,
        !confirmed ==> match first_challenge {
            Some((t, p)) => r matches RenewalAction::Publish(t2, p2) && t2 == t && p2 == p,
            None => r is Fail,
        },
{
    if confirmed {
        RenewalAction::Finalize
    } else {
        match first_challenge {
            Some((token, proof)) => RenewalAction::Publish(token, proof),
            None => RenewalAction::Fail,
        }
    }
}

/// Whether a stored certificate can be kept rather than renewed: it has at
/// least one valid day left.
pub fn certificate_still_valid(valid_days_left: i64) -> (r: bool)
    ensures
        r == (valid_days_left > 0),
{
    valid_days_left > 0
}

} // verus!
