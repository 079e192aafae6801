use crate::algorithms::{
    names_address,
    selection_outcome,
    strategy_outcome,
    Context,
    LoadBalancingStrategy,
    RequestForwarder,
};
use crate::request::{opt_view, RequestInfo};
use crate::text::{
    find_char_or_end,
    find_from,
    first_occurrence_from,
    occurs_at,
    lemma_first_occurrence,
    lemma_next_char_bounds,
    next_char_or_end,
    substring,
};
use vstd::prelude::*;

verus! {

/// The `SameSite` attribute that a sticky cookie is issued with.
#[derive(Debug, Clone, Copy, PartialEq, Eq, Structural)]
pub enum SameSite {
    Strict,
    Lax,
    /// Sent on cross-site requests too (`SameSite=None`).
    Unrestricted,
}

pub open spec fn same_site_text(s: SameSite) -> Seq<char> {
    match s {
        SameSite::Strict => seq!['S', 't', 'r', 'i', 'c', 't'],
        SameSite::Lax => seq!['L', 'a', 'x'],
        SameSite::Unrestricted => seq!['N', 'o', 'n', 'e'],
    }
}

/// The `Set-Cookie` value that names `value` under `name` with the given
/// attributes: `name=value[; HttpOnly]; SameSite=<policy>[; Secure]`.
pub open spec fn set_cookie_text(
    name: Seq<char>,
    value: Seq<char>,
    http_only: bool,
    secure: bool,
    same_site: SameSite,
) -> Seq<char> {
    name + seq!['='] + value + (if http_only {
        seq![';', ' ', 'H', 't', 't', 'p', 'O', 'n', 'l', 'y']
    } else {
        Seq::empty()
    }) + seq![';', ' ', 'S', 'a', 'm', 'e', 'S', 'i', 't', 'e', '='] + same_site_text(same_site) + (
    if secure {
        seq![';', ' ', 'S', 'e', 'c', 'u', 'r', 'e']
    } else {
        Seq::empty()
    })
}

/// Relies on `cookie::Cookie::build` with `http_only`, `secure` and
/// `same_site`, and on the cookie's `Display`, which writes `name=value`,
/// then `; HttpOnly` if set, `; SameSite=<policy>`, then `; Secure` if set.
#[verifier::external_body]
fn render_set_cookie(name: &str, value: &str, http_only: bool, secure: bool, same_site: SameSite) -> (r:
    String)
    ensures
        r@ == set_cookie_text(name@, value@, http_only, secure, same_site),
{
    let policy = match same_site {
        SameSite::Strict => cookie::SameSite::Strict,
        SameSite::Lax => cookie::SameSite::Lax,
        SameSite::Unrestricted => cookie::SameSite::None,
    };
    cookie::Cookie::build(name, value).http_only(http_only).secure(secure).same_site(policy).finish().to_string()
}

/// The value that `cookie::Cookie::parse` reads from a `name=value` pair.
pub uninterp spec fn cookie_pair_value(pair: Seq<char>) -> Option<Seq<char>>;

/// Whether every character of `s` is a visible ASCII character other than
/// `;`, `"`, and (for a name) `=`.
pub open spec fn plain_cookie_text(s: Seq<char>, is_name: bool) -> bool {
    forall|i: int|
        0 <= i < s.len() ==> '!' <= #[trigger] s[i] <= '~' && s[i] != ';' && s[i] != '"' && (
        is_name ==> s[i] != '=')
}

/// Relies on `cookie::Cookie::parse`: it splits at the first `=`, trims
/// white space around name and value and one pair of quotes around the
/// value, and fails on an empty name.
#[verifier::external_body]
fn parse_cookie_value(pair: &str) -> (r: Option<String>)
    ensures
        opt_view(r) == cookie_pair_value(pair@),
        forall|n: Seq<char>, v: Seq<char>|
            n.len() > 0 && plain_cookie_text(n, true) && plain_cookie_text(v, false) && pair@ == n
                + seq!['='] + v ==> opt_view(r) == Some(v),
{
    match cookie::Cookie::parse(pair) {
        Ok(c) => Some(c.value().to_string()),
        Err(_) => None,
    }
}

/// The raw text that follows the first `name=` in a `Cookie` header, up to
/// the next `;` or the end.
pub open spec fn sticky_raw_value(header: Seq<char>, name: Seq<char>) -> Option<Seq<char>> {
    let needle = name + seq!['='];
    match first_occurrence_from(header, needle, 0) {
        Some(p) => Some(
            header.subrange(p + needle.len(), next_char_or_end(header, ';', p + needle.len())),
        ),
        None => None,
    }
}

/// The sticky cookie's value in a request's `Cookie` header, if any: the
/// raw text itself where name and text are plain, else what the cookie
/// parser reads from the pair.
pub open spec fn sticky_value(header: Option<Seq<char>>, name: Seq<char>) -> Option<Seq<char>> {
    match header {
        Some(h) => match sticky_raw_value(h, name) {
            Some(raw) => if name.len() > 0 && plain_cookie_text(name, true) && plain_cookie_text(
                raw,
                false,
            ) {
                Some(raw)
            } else {
                cookie_pair_value(name + seq!['='] + raw)
            },
            None => None,
        },
        None => None,
    }
}

/// The first position at or after `i` of an address equal to `v`.
pub open spec fn position_from(addrs: Seq<String>, v: Seq<char>, i: int) -> Option<int>
    decreases addrs.len() - i,
{
    if i < 0 || i >= addrs.len() {
        None
    } else if addrs[i]@ == v {
        Some(i)
    } else {
        position_from(addrs, v, i + 1)
    }
}

pub proof fn lemma_position_from(addrs: Seq<String>, v: Seq<char>, i: int)
    ensures
        position_from(addrs, v, i) matches Some(p) ==> i <= p < addrs.len() && addrs[p]@ == v,
    decreases addrs.len() - i,
{
    if !(i < 0 || i >= addrs.len()) && addrs[i]@ != v {
        lemma_position_from(addrs, v, i + 1);
    }
}

proof fn lemma_position_found(addrs: Seq<String>, v: Seq<char>, i: int, j: int)
    requires
        0 <= i <= j < addrs.len(),
        addrs[j]@ == v,
    ensures
        position_from(addrs, v, i) is Some,
    decreases j - i,
{
    if addrs[i]@ != v {
        lemma_position_found(addrs, v, i + 1, j);
    }
}

proof fn lemma_no_semicolon_to_end(s: Seq<char>, i: int)
    requires
        0 <= i <= s.len(),
        forall|k: int| i <= k < s.len() ==> s[k] != ';',
    ensures
        next_char_or_end(s, ';', i) == s.len(),
    decreases s.len() - i,
{
    if i < s.len() {
        lemma_no_semicolon_to_end(s, i + 1);
    }
}

/// A client that sends back the sticky cookie it was issued, `name=value`
/// with a plain name and value, is sent to that address and gets no new
/// cookie, as long as the address is selectable.
pub proof fn lemma_sticky_cookie_round_trip(
    before: LoadBalancingStrategy,
    after: LoadBalancingStrategy,
    value: Seq<char>,
    ip: Seq<u8>,
    addrs: Seq<String>,
    r: RequestForwarder,
)
    requires
        before is StickyCookie,
        before->StickyCookie_0.cookie_name@.len() > 0,
        plain_cookie_text(before->StickyCookie_0.cookie_name@, true),
        plain_cookie_text(value, false),
        exists|j: int| 0 <= j < addrs.len() && addrs[j]@ == value,
        selection_outcome(
            before,
            after,
            Some(before->StickyCookie_0.cookie_name@ + seq!['='] + value),
            ip,
            addrs,
            r,
        ),
    ensures
        r.backend_address@ == value,
        r.set_cookie is None,
{
    let name = before->StickyCookie_0.cookie_name@;
    let needle = name + seq!['='];
    let h = needle + value;
    assert(h.subrange(0, needle.len() as int) =~= needle);
    assert(occurs_at(h, needle, 0));
    assert(first_occurrence_from(h, needle, 0) == Some(0int));
    lemma_no_semicolon_to_end(h, needle.len() as int);
    assert(h.subrange(needle.len() as int, h.len() as int) =~= value);
    assert(sticky_raw_value(h, name) == Some(value));
    assert(name + seq!['='] + value == h);
    assert(sticky_value(Some(h), name) == Some(value));
    let j = choose|j: int| 0 <= j < addrs.len() && addrs[j]@ == value;
    lemma_position_found(addrs, value, 0, j);
    lemma_position_from(addrs, value, 0);
}

/// The address that a sticky cookie value pins a request to, if the value
/// names one of the selectable addresses.
pub open spec fn sticky_target(value: Option<Seq<char>>, addrs: Seq<String>) -> Option<int> {
    match value {
        Some(v) => position_from(addrs, v, 0),
        None => None,
    }
}

/// The position of the selectable address that a sticky cookie value names.
pub fn sticky_choice(value: &Option<String>, addresses: &Vec<String>) -> (r: Option<usize>)
    ensures
        match r {
            Some(i) => sticky_target(opt_view(*value), addresses@) == Some(i as int),
            None => sticky_target(opt_view(*value), addresses@) is None,
        },
{
    match value {
        Some(v) => {
            let mut i: usize = 0;
            while i < addresses.len()
                invariant
                    opt_view(*value) == Some(v@),
                    i <= addresses@.len(),
                    position_from(addresses@, v@, 0) == position_from(addresses@, v@, i as int),
                decreases addresses@.len() - i,
            {
                if addresses[i] == *v {
                    assert(position_from(addresses@, v@, i as int) == Some(i as int));
                    return Some(i);
                }
                i = i + 1;
            }
            None
        },
        None => None,
    }
}

/// Keeps a client on the upstream it was first sent to, by a cookie that
/// names that upstream's address.
pub struct StickyCookie {
    pub cookie_name: String,
    pub inner: Box<LoadBalancingStrategy>,
    pub http_only: bool,
    pub secure: bool,
    pub same_site: SameSite,
}

impl StickyCookie {
    pub fn new(
        cookie_name: String,
        inner: Box<LoadBalancingStrategy>,
        http_only: bool,
        secure: bool,
        same_site: SameSite,
    ) -> (r: StickyCookie)
        ensures
            r.cookie_name == cookie_name,
            r.inner == inner,
            r.http_only == http_only,
            r.secure == secure,
            r.same_site == same_site,
    {
        StickyCookie { cookie_name, inner, http_only, secure, same_site }
    }

    /// The value of this strategy's cookie in a `Cookie` header, if any.
    pub fn try_parse_sticky_cookie(&self, cookie_header: &Option<String>) -> (r: Option<String>)
        ensures
            opt_view(r) == sticky_value(opt_view(*cookie_header), self.cookie_name@),
    {
        match cookie_header {
            Some(header) => {
                let needle = self.cookie_name.clone().concat("=");
                proof {
                    reveal_strlit("=");
                }
                assert(needle@ == self.cookie_name@ + seq!['=']);
                // Learns that the header's length fits in `usize`.
                let _header_len = header.unicode_len();
                match find_from(header.as_str(), needle.as_str(), 0) {
                    Some(p) => {
                        proof {
                            lemma_first_occurrence(header@, needle@, 0);
                            assert(occurs_at(header@, needle@, p as int));
                        }
                        let start = p + needle.unicode_len();
                        let end = find_char_or_end(header.as_str(), ';', start);
                        proof {
                            lemma_next_char_bounds(header@, ';', start as int);
                        }
                        let raw = substring(header.as_str(), start, end);
                        let pair = needle.concat(raw.as_str());
                        let parsed = parse_cookie_value(pair.as_str());
                        proof {
                            if self.cookie_name@.len() > 0 && plain_cookie_text(self.cookie_name@, true)
                                && plain_cookie_text(raw@, false) {
                                assert(pair@ == self.cookie_name@ + seq!['='] + raw@);
                            }
                        }
                        parsed
                    },
                    None => None,
                }
            },
            None => None,
        }
    }

    /// The `Set-Cookie` value that pins a client to `backend_address`.
    pub fn modify_response(&self, backend_address: &str) -> (r: String)
        ensures
            r@ == set_cookie_text(
                self.cookie_name@,
                backend_address@,
                self.http_only,
                self.secure,
                self.same_site,
            ),
    {
        render_set_cookie(
            self.cookie_name.as_str(),
            backend_address,
            self.http_only,
            self.secure,
            self.same_site,
        )
    }

    pub open spec fn wf(&self) -> bool {
        !(*self.inner is StickyCookie) && self.inner.wf()
    }

    /// Sends the request to the address its sticky cookie names, if that
    /// address is selectable; otherwise asks the inner strategy and has the
    /// response set the cookie to the address it chose.
    pub fn select_backend(&mut self, request: &RequestInfo, context: &Context) -> (r: RequestForwarder)
        requires
            old(self).wf(),
            context.backend_addresses@.len() > 0,
        ensures
            final(self).wf(),
            final(self).cookie_name == old(self).cookie_name,
            final(self).http_only == old(self).http_only,
            final(self).secure == old(self).secure,
            final(self).same_site == old(self).same_site,
            match sticky_target(
                sticky_value(opt_view(request.cookie), old(self).cookie_name@),
                context.backend_addresses@,
            ) {
                Some(i) => {
                    &&& names_address(context.backend_addresses@, i, r.backend_address@)
                    &&& r.set_cookie is None
                    &&& final(self).inner == old(self).inner
                },
                None => {
                    &&& strategy_outcome(
                        *old(self).inner,
                        *final(self).inner,
                        context.client_address.ip@,
                        context.backend_addresses@,
                        r.backend_address@,
                    )
                    &&& r.set_cookie matches Some(c) && c@ == set_cookie_text(
                        old(self).cookie_name@,
                        r.backend_address@,
                        old(self).http_only,
                        old(self).secure,
                        old(self).same_site,
                    )
                },
            },
    {
        let value = self.try_parse_sticky_cookie(&request.cookie);
        match sticky_choice(&value, &context.backend_addresses) {
            Some(i) => {
                proof {
                    lemma_position_from(context.backend_addresses@, opt_view(value)->Some_0, 0);
                }
                RequestForwarder::new(&context.backend_addresses[i])
            },
            None => {
                let backend = self.inner.select_plain(request, context);
                let cookie = self.modify_response(backend.backend_address.as_str());
                backend.map_response(cookie)
            },
        }
    }
}

} // verus!
