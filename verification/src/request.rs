use vstd::prelude::*;
use crate::text::{push_char, trim, trim_text};

verus! {

/// The host that every Yahoo Finance request goes to.
pub const YAHOO_BASE: &'static str = "https://query1.finance.yahoo.com";

/// The texts of a list of query parameters.
pub open spec fn pairs_view(ps: Seq<(String, String)>) -> Seq<(Seq<char>, Seq<char>)> {
    ps.map_values(|p: (String, String)| (p.0@, p.1@))
}

/// The separator before the `i`-th query parameter: `?` first, then `&`.
pub open spec fn query_sep(i: int) -> char {
    if i == 0 {
        '?'
    } else {
        '&'
    }
}

/// `?k1=v1&k2=v2...` for the parameters in order; empty for none. Keys and
/// values are written as they are, without escaping.
pub open spec fn query_text(ps: Seq<(Seq<char>, Seq<char>)>) -> Seq<char>
    decreases ps.len(),
{
    if ps.len() == 0 {
        Seq::empty()
    } else {
        query_text(ps.drop_last()) + seq![query_sep(ps.len() - 1)] + ps.last().0 + seq!['=']
            + ps.last().1
    }
}

/// `crumb=<crumb>` after the parameters (with `?` when there are none, else
/// `&`); empty when the crumb is empty.
pub open spec fn crumb_text(n_params: nat, crumb: Seq<char>) -> Seq<char> {
    if crumb.len() == 0 {
        Seq::empty()
    } else {
        seq![query_sep(n_params as int), 'c', 'r', 'u', 'm', 'b', '='] + crumb
    }
}

/// The URL of a request: host, path, parameters in order, then the crumb.
pub open spec fn url_text(
    path: Seq<char>,
    ps: Seq<(Seq<char>, Seq<char>)>,
    crumb: Seq<char>,
) -> Seq<char> {
    YAHOO_BASE@ + path + query_text(ps) + crumb_text(ps.len(), crumb)
}

/// Builds the URL of a Yahoo Finance request (see `url_text`); an empty
/// crumb adds nothing.
pub fn request_url(path: &str, params: &Vec<(String, String)>, crumb: &str) -> (url: String)
    ensures
        url@ == url_text(path@, pairs_view(params@), crumb@),
{
    let mut url = String::from_str(YAHOO_BASE);
    url.append(path);
    let ghost head = url@;
    let mut i: usize = 0;
    while i < params.len()
        invariant
            i <= params@.len(),
            url@ == head + query_text(pairs_view(params@).take(i as int)),
        decreases params@.len() - i,
    {
        let ghost before = url@;
        if i == 0 {
            push_char(&mut url, '?');
        } else {
            push_char(&mut url, '&');
        }
        url.append(params[i].0.as_str());
        push_char(&mut url, '=');
        url.append(params[i].1.as_str());
        let ghost ps = pairs_view(params@).take(i + 1);
        assert(ps.drop_last() =~= pairs_view(params@).take(i as int));
        i = i + 1;
        assert(url@ =~= head + query_text(ps));
    }
    assert(pairs_view(params@).take(params@.len() as int) =~= pairs_view(params@));
    let ghost mid = url@;
    if crumb.unicode_len() > 0 {
        if params.len() == 0 {
            push_char(&mut url, '?');
        } else {
            push_char(&mut url, '&');
        }
        push_char(&mut url, 'c');
        push_char(&mut url, 'r');
        push_char(&mut url, 'u');
        push_char(&mut url, 'm');
        push_char(&mut url, 'b');
        push_char(&mut url, '=');
        url.append(crumb);
        assert(url@ =~= mid + crumb_text(params@.len(), crumb@));
    } else {
        assert(url@ =~= mid + crumb_text(params@.len(), crumb@));
    }
    url
}

/// A crumb that Yahoo gives is kept when it is not empty and takes at most 64
/// bytes in UTF-8.
pub open spec fn crumb_ok(crumb: Seq<char>) -> bool {
    crumb.len() > 0 && vstd::utf8::encode_utf8(crumb).len() <= 64
}

proof fn lemma_utf8_len(s: Seq<char>)
    ensures
        s.len() <= vstd::utf8::encode_utf8(s).len() <= 4 * s.len(),
    decreases s.len(),
{
    if s.len() > 0 {
        lemma_utf8_len(s.drop_first());
        let e = vstd::utf8::encode_scalar(s[0] as u32);
        assert(1 <= e.len() <= 4);
    }
}

/// The crumb a session holds after taking the answer `body`: a crumb it
/// holds stays; otherwise the trimmed body if acceptable, else still none.
pub open spec fn crumb_after(held: Seq<char>, body: Seq<char>) -> Seq<char> {
    if held.len() > 0 {
        held
    } else if crumb_ok(trim_text(body)) {
        trim_text(body)
    } else {
        held
    }
}

/// The crumb a session holds after taking the answers `bodies` in turn.
pub open spec fn crumb_after_all(held: Seq<char>, bodies: Seq<Seq<char>>) -> Seq<char>
    decreases bodies.len(),
{
    if bodies.len() == 0 {
        held
    } else {
        crumb_after_all(crumb_after(held, bodies[0]), bodies.drop_first())
    }
}

/// Once a session holds a crumb, no later answer replaces it.
pub proof fn law_crumb_never_replaced(held: Seq<char>, bodies: Seq<Seq<char>>)
    requires
        held.len() > 0,
    ensures
        crumb_after_all(held, bodies) == held,
    decreases bodies.len(),
{
    if bodies.len() > 0 {
        law_crumb_never_replaced(held, bodies.drop_first());
    }
}

/// Whatever answers a session takes, it holds no crumb or an acceptable one:
/// not empty and at most 64 bytes.
pub proof fn law_crumb_always_acceptable(held: Seq<char>, bodies: Seq<Seq<char>>)
    requires
        held.len() == 0 || crumb_ok(held),
    ensures
        crumb_after_all(held, bodies).len() == 0 || crumb_ok(crumb_after_all(held, bodies)),
    decreases bodies.len(),
{
    if bodies.len() > 0 {
        law_crumb_always_acceptable(crumb_after(held, bodies[0]), bodies.drop_first());
    }
}

/// The error for a crumb that is not kept.
pub open spec fn crumb_invalid_text() -> Seq<char> {
    "Yahoo crumb invalid"@
}

/// The state of a Yahoo session: the crumb it has, empty before one was
/// obtained.
#[derive(Debug)]
pub struct Session {
    crumb: String,
}

impl Session {
    /// The session holds no crumb, or one that is acceptable.
    #[verifier::type_invariant]
    pub closed spec fn wf(self) -> bool {
        self.crumb@.len() == 0 || crumb_ok(self.crumb@)
    }

    /// The crumb of the session; empty while it has none.
    pub closed spec fn crumb(self) -> Seq<char> {
        self.crumb@
    }

    /// A session without a crumb.
    pub fn new() -> (s: Session)
        ensures
            s.crumb() == Seq::<char>::empty(),
    {
        Session { crumb: String::new() }
    }

    /// The crumb, once the session has one.
    pub fn cached_crumb(&self) -> (r: Option<String>)
        ensures
            match r {
                Some(c) => c@ == self.crumb() && crumb_ok(c@),
                None => self.crumb().len() == 0,
            },
    {
        proof {
            use_type_invariant(self);
        }
        if self.crumb.as_str().unicode_len() == 0 {
            None
        } else {
            Some(self.crumb.clone())
        }
    }

    /// Takes the body of Yahoo's crumb answer. A session that already holds
    /// a crumb keeps it and gives it back. Otherwise the trimmed body becomes
    /// the crumb if it is acceptable (see `crumb_ok`); if not, the session
    /// stays without a crumb and the answer is refused.
    pub fn accept_crumb(&mut self, body: &str) -> (r: Result<String, String>)
        ensures
            final(self).crumb() == crumb_after(old(self).crumb(), body@),
            old(self).crumb().len() > 0 ==> (r matches Ok(c) && c@ == old(self).crumb()),
            old(self).crumb().len() == 0 && crumb_ok(trim_text(body@)) ==> (r matches Ok(c) && c@
                == trim_text(body@)),
            old(self).crumb().len() == 0 && !crumb_ok(trim_text(body@)) ==> (r matches Err(e) && e@
                == crumb_invalid_text()),
    {
        if let Some(held) = self.cached_crumb() {
            return Ok(held);
        }
        let c = trim(body);
        let n = c.as_str().unicode_len();
        proof {
            lemma_utf8_len(c@);
        }
        if n == 0 || n > 64 || c.as_str().len() > 64 {
            proof {
                reveal_strlit("Yahoo crumb invalid");
            }
            return Err(String::from_str("Yahoo crumb invalid"));
        }
        self.crumb = c.clone();
        Ok(c)
    }
}

/// Adding a parameter to a request without a crumb adds `?key=value` (for
/// the first parameter) or `&key=value` to the end of its URL.
pub proof fn law_url_grows_by_parameter(
    path: Seq<char>,
    ps: Seq<(Seq<char>, Seq<char>)>,
    key: Seq<char>,
    value: Seq<char>,
)
    ensures
        url_text(path, ps.push((key, value)), Seq::empty()) == url_text(path, ps, Seq::empty())
            + seq![query_sep(ps.len() as int)] + key + seq!['='] + value,
{
    assert(ps.push((key, value)).drop_last() =~= ps);
    assert(url_text(path, ps.push((key, value)), Seq::empty()) =~= url_text(path, ps, Seq::empty())
        + seq![query_sep(ps.len() as int)] + key + seq!['='] + value);
}

/// The crumb goes after all parameters: a request's URL is the URL without
/// the crumb, followed by the crumb part.
pub proof fn law_crumb_comes_last(path: Seq<char>, ps: Seq<(Seq<char>, Seq<char>)>, crumb: Seq<char>)
    ensures
        url_text(path, ps, crumb) == url_text(path, ps, Seq::empty()) + crumb_text(ps.len(), crumb),
{
    assert(url_text(path, ps, crumb) =~= url_text(path, ps, Seq::empty()) + crumb_text(ps.len(), crumb));
}

/// Kept for symmetry with other data plugins: Yahoo Finance needs no API key,
/// so the key is ignored. It changes nothing: it borrows no state mutably,
/// and the library keeps none of its own beyond the values handed to it.
pub fn set_apikey(_key: String) {
}

} // verus!
