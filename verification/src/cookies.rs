//! The Instagram session cookies: which ones are picked from the webview's
//! cookie jar, and the name-to-value map the API client is seeded with.

use vstd::prelude::*;
use vstd::string::*;

use crate::error::AppError;
use crate::text::{chars_end_with, chars_equal, chars_of, ends_with_chars, opt_chars, str_equal};

verus! {

/// The domain of the cookies that belong to Instagram; its subdomains count
/// too.
pub const IG_DOMAIN: &'static str = "instagram.com";

/// The suffix of Instagram's subdomains.
pub const IG_SUBDOMAIN_SUFFIX: &'static str = ".instagram.com";

/// The user agent of the Instagram webview. The API client sends the same one,
/// since Instagram refuses calls whose user agent differs from the browsing
/// session that produced the session cookie.
pub const IG_WEBVIEW_USER_AGENT: &'static str = "Mozilla/5.0 (Macintosh; Intel Mac OS X 10_15_7) AppleWebKit/605.1.15 (KHTML, like Gecko) Version/17.5 Safari/605.1.15";

/// The cookie names that make up an Instagram session.
pub const SESSIONID: &'static str = "sessionid";
pub const CSRFTOKEN: &'static str = "csrftoken";
pub const DS_USER_ID: &'static str = "ds_user_id";
pub const MID: &'static str = "mid";
pub const IG_DID: &'static str = "ig_did";

// ---------------------------------------------------------------------------
// Name-to-value map
// ---------------------------------------------------------------------------

/// The map that a list of (name, value) entries describes, later entries
/// taking precedence.
pub open spec fn entries_map(e: Seq<(String, String)>) -> Map<Seq<char>, Seq<char>>
    decreases e.len(),
{
    if e.len() == 0 {
        Map::empty()
    } else {
        entries_map(e.drop_last()).insert(e.last().0@, e.last().1@)
    }
}

/// No two entries share a name.
pub open spec fn names_distinct(e: Seq<(String, String)>) -> bool {
    forall|i: int, j: int| 0 <= i < j < e.len() ==> (#[trigger] e[i]).0@ != (#[trigger] e[j]).0@
}

proof fn lemma_entries_map(e: Seq<(String, String)>)
    requires
        names_distinct(e),
    ensures
        forall|k: Seq<char>|
            #[trigger] entries_map(e).contains_key(k) <==> exists|i: int|
                0 <= i < e.len() && (#[trigger] e[i]).0@ == k,
        forall|i: int| 0 <= i < e.len() ==> entries_map(e)[(#[trigger] e[i]).0@] == e[i].1@,
        entries_map(e).dom().finite(),
        entries_map(e).dom().len() == e.len(),
    decreases e.len(),
{
    if e.len() > 0 {
        let d = e.drop_last();
        assert(names_distinct(d)) by {
            assert forall|i: int, j: int| 0 <= i < j < d.len() implies (#[trigger] d[i]).0@ != (
            #[trigger] d[j]).0@ by {
                assert(d[i] == e[i] && d[j] == e[j]);
            }
        }
        lemma_entries_map(d);
        let last = e.last();
        assert(!entries_map(d).contains_key(last.0@)) by {
            if entries_map(d).contains_key(last.0@) {
                let i = choose|i: int| 0 <= i < d.len() && (#[trigger] d[i]).0@ == last.0@;
                assert(e[i] == d[i]);
                assert(e[e.len() - 1] == last);
            }
        }
        assert forall|k: Seq<char>| #[trigger] entries_map(e).contains_key(k) <==> exists|i: int|
            0 <= i < e.len() && (#[trigger] e[i]).0@ == k by {
            if entries_map(e).contains_key(k) && k != last.0@ {
                let i = choose|i: int| 0 <= i < d.len() && (#[trigger] d[i]).0@ == k;
                assert(e[i] == d[i]);
            }
            if k == last.0@ {
                assert(e[e.len() - 1] == last);
            }
            if exists|i: int| 0 <= i < e.len() && (#[trigger] e[i]).0@ == k {
                let i = choose|i: int| 0 <= i < e.len() && (#[trigger] e[i]).0@ == k;
                if i < e.len() - 1 {
                    assert(d[i] == e[i]);
                }
            }
        }
        assert forall|i: int| 0 <= i < e.len() implies entries_map(e)[(#[trigger] e[i]).0@]
            == e[i].1@ by {
            if i < e.len() - 1 {
                assert(d[i] == e[i]);
            }
        }
    }
}

/// A map from cookie name to cookie value.
#[derive(Debug)]
pub struct CookieMap {
    entries: Vec<(String, String)>,
}

impl View for CookieMap {
    type V = Map<Seq<char>, Seq<char>>;

    closed spec fn view(&self) -> Map<Seq<char>, Seq<char>> {
        entries_map(self.entries@)
    }
}

impl CookieMap {
    #[verifier::type_invariant]
    spec fn names_unique(self) -> bool {
        names_distinct(self.entries@)
    }

    /// The map's entries.
    pub closed spec fn entry_seq(self) -> Seq<(String, String)> {
        self.entries@
    }

    /// An empty map.
    pub fn new() -> (m: CookieMap)
        ensures
            m@ == Map::<Seq<char>, Seq<char>>::empty(),
    {
        CookieMap { entries: Vec::new() }
    }

    fn index_of(&self, name: &str) -> (r: Option<usize>)
        ensures
            match r {
                Some(i) => i < self.entries@.len() && self.entries@[i as int].0@ == name@,
                None => forall|i: int|
                    0 <= i < self.entries@.len() ==> (#[trigger] self.entries@[i]).0@ != name@,
            },
    {
        let mut i: usize = 0;
        while i < self.entries.len()
            invariant
                i <= self.entries.len(),
                forall|k: int| 0 <= k < i ==> (#[trigger] self.entries@[k]).0@ != name@,
            decreases self.entries.len() - i,
        {
            if str_equal(self.entries[i].0.as_str(), name) {
                return Some(i);
            }
            i = i + 1;
        }
        None
    }

    /// Sets `name` to `value`, replacing any earlier value.
    pub fn insert(&mut self, name: String, value: String)
        ensures
            final(self)@ == old(self)@.insert(name@, value@),
    {
        proof {
            use_type_invariant(&*self);
            lemma_entries_map(self.entries@);
        }
        match self.index_of(name.as_str()) {
            Some(i) => {
                let ghost before = self.entries@;
                let ghost key = name@;
                let ghost val = value@;
                let mut entries: Vec<(String, String)> = Vec::new();
                std::mem::swap(&mut entries, &mut self.entries);
                entries.set(i, (name, value));
                proof {
                    let after = entries@;
                    assert(names_distinct(after)) by {
                        assert forall|a: int, b: int| 0 <= a < b < after.len() implies (
                        #[trigger] after[a]).0@ != (#[trigger] after[b]).0@ by {
                            if a == i {
                                assert(before[a].0@ == key);
                            }
                            if b == i {
                                assert(before[b].0@ == key);
                            }
                        }
                    }
                    lemma_entries_map(after);
                    assert(entries_map(after) =~= entries_map(before).insert(key, val)) by {
                        assert forall|k: Seq<char>| #[trigger] entries_map(after).contains_key(k)
                            <==> entries_map(before).insert(key, val).contains_key(k) by {
                            if entries_map(after).contains_key(k) {
                                let j = choose|j: int|
                                    0 <= j < after.len() && (#[trigger] after[j]).0@ == k;
                                if j != i {
                                    assert(after[j] == before[j]);
                                }
                            }
                            if entries_map(before).contains_key(k) {
                                let j = choose|j: int|
                                    0 <= j < before.len() && (#[trigger] before[j]).0@ == k;
                                if j != i {
                                    assert(after[j] == before[j]);
                                } else {
                                    assert(after[j].0@ == k);
                                }
                            }
                            if k == key {
                                assert(after[i as int].0@ == k);
                            }
                        }
                        assert forall|k: Seq<char>| #[trigger] entries_map(after).contains_key(k)
                            implies entries_map(after)[k] == entries_map(before).insert(
                            key,
                            val,
                        )[k] by {
                            let j = choose|j: int|
                                0 <= j < after.len() && (#[trigger] after[j]).0@ == k;
                            if j != i {
                                assert(after[j] == before[j]);
                            }
                        }
                    }
                }
                self.entries = entries;
            },
            None => {
                let ghost before = self.entries@;
                let mut entries: Vec<(String, String)> = Vec::new();
                std::mem::swap(&mut entries, &mut self.entries);
                entries.push((name, value));
                proof {
                    let after = entries@;
                    assert(after.drop_last() =~= before);
                    assert(names_distinct(after)) by {
                        assert forall|a: int, b: int| 0 <= a < b < after.len() implies (
                        #[trigger] after[a]).0@ != (#[trigger] after[b]).0@ by {
                            if b == after.len() - 1 {
                                assert(after[a] == before[a]);
                            } else {
                                assert(after[a] == before[a] && after[b] == before[b]);
                            }
                        }
                    }
                }
                self.entries = entries;
            },
        }
    }

    /// The value stored for `name`, if any.
    pub fn get(&self, name: &str) -> (r: Option<&String>)
        ensures
            match r {
                Some(v) => self@.contains_key(name@) && self@[name@] == v@,
                None => !self@.contains_key(name@),
            },
    {
        proof {
            use_type_invariant(self);
            lemma_entries_map(self.entries@);
        }
        match self.index_of(name) {
            Some(i) => Some(&self.entries[i].1),
            None => None,
        }
    }

    /// Whether a value is stored for `name`.
    pub fn contains_key(&self, name: &str) -> (r: bool)
        ensures
            r == self@.contains_key(name@),
    {
        self.get(name).is_some()
    }

    /// How many names have a value.
    pub fn len(&self) -> (n: usize)
        ensures
            self@.dom().finite(),
            n == self@.len(),
    {
        proof {
            use_type_invariant(self);
            lemma_entries_map(self.entries@);
        }
        self.entries.len()
    }

    /// The (name, value) entries, each name once.
    pub fn pairs(&self) -> (r: &Vec<(String, String)>)
        ensures
            entries_map(r@) == self@,
            names_distinct(r@),
    {
        proof {
            use_type_invariant(self);
        }
        &self.entries
    }
}

// ---------------------------------------------------------------------------
// Harvested session
// ---------------------------------------------------------------------------

/// The session cookies taken from the webview: the three that a session needs,
/// and the two that it may carry.
#[derive(Debug, Clone)]
pub struct HarvestedCookies {
    pub sessionid: String,
    pub csrftoken: String,
    pub ds_user_id: String,
    pub mid: Option<String>,
    pub ig_did: Option<String>,
}

/// The map of a harvested session: the three required cookies, and each
/// optional one that is present.
pub open spec fn harvested_map(c: HarvestedCookies) -> Map<Seq<char>, Seq<char>> {
    let base = Map::<Seq<char>, Seq<char>>::empty().insert(SESSIONID@, c.sessionid@).insert(
        CSRFTOKEN@,
        c.csrftoken@,
    ).insert(DS_USER_ID@, c.ds_user_id@);
    let with_mid = match c.mid {
        Some(v) => base.insert(MID@, v@),
        None => base,
    };
    match c.ig_did {
        Some(v) => with_mid.insert(IG_DID@, v@),
        None => with_mid,
    }
}

impl HarvestedCookies {
    /// The cookies as a name-to-value map.
    pub fn as_map(&self) -> (m: CookieMap)
        ensures
            m@ == harvested_map(*self),
    {
        let mut m = CookieMap::new();
        m.insert(SESSIONID.to_string(), self.sessionid.clone());
        m.insert(CSRFTOKEN.to_string(), self.csrftoken.clone());
        m.insert(DS_USER_ID.to_string(), self.ds_user_id.clone());
        if let Some(v) = &self.mid {
            m.insert(MID.to_string(), v.clone());
        }
        if let Some(v) = &self.ig_did {
            m.insert(IG_DID.to_string(), v.clone());
        }
        m
    }
}

/// The value of the last pair named `name` whose value is not empty.
pub open spec fn picked(pairs: Seq<(String, String)>, name: Seq<char>) -> Option<Seq<char>>
    decreases pairs.len(),
{
    if pairs.len() == 0 {
        None
    } else if pairs.last().0@ == name && pairs.last().1@.len() > 0 {
        Some(pairs.last().1@)
    } else {
        picked(pairs.drop_last(), name)
    }
}

/// Whether the pairs hold a session: a non-empty `sessionid`, `csrftoken` and
/// `ds_user_id`.
pub open spec fn holds_session(pairs: Seq<(String, String)>) -> bool {
    &&& picked(pairs, SESSIONID@) is Some
    &&& picked(pairs, CSRFTOKEN@) is Some
    &&& picked(pairs, DS_USER_ID@) is Some
}

fn pick_step(slot: &mut Option<String>, pair: &(String, String), name: &str)
    ensures
        (pair.0@ == name@ && pair.1@.len() > 0) ==> *final(slot) == Some(pair.1),
        !(pair.0@ == name@ && pair.1@.len() > 0) ==> *final(slot) == *old(slot),
{
    if !pair.1.as_str().is_empty() && str_equal(pair.0.as_str(), name) {
        *slot = Some(pair.1.clone());
    }
}

/// Picks the session cookies out of the (name, value) pairs of the cookie
/// jar. For each of the five session names the last pair with a non-empty
/// value counts; other pairs are ignored. Without a `sessionid`, `csrftoken`
/// or `ds_user_id` there is no session: `SessionExpired`.
pub fn select(pairs: &[(String, String)]) -> (r: Result<HarvestedCookies, AppError>)
    ensures
        match r {
            Ok(c) => {
                &&& holds_session(pairs@)
                &&& picked(pairs@, SESSIONID@) == Some(c.sessionid@)
                &&& picked(pairs@, CSRFTOKEN@) == Some(c.csrftoken@)
                &&& picked(pairs@, DS_USER_ID@) == Some(c.ds_user_id@)
                &&& picked(pairs@, MID@) == opt_chars(c.mid)
                &&& picked(pairs@, IG_DID@) == opt_chars(c.ig_did)
            },
            Err(e) => !holds_session(pairs@) && e is SessionExpired,
        },
{
    let mut sessionid: Option<String> = None;
    let mut csrftoken: Option<String> = None;
    let mut ds_user_id: Option<String> = None;
    let mut mid: Option<String> = None;
    let mut ig_did: Option<String> = None;
    let mut i: usize = 0;
    while i < pairs.len()
        invariant
            i <= pairs@.len(),
            opt_chars(sessionid) == picked(pairs@.take(i as int), SESSIONID@),
            opt_chars(csrftoken) == picked(pairs@.take(i as int), CSRFTOKEN@),
            opt_chars(ds_user_id) == picked(pairs@.take(i as int), DS_USER_ID@),
            opt_chars(mid) == picked(pairs@.take(i as int), MID@),
            opt_chars(ig_did) == picked(pairs@.take(i as int), IG_DID@),
        decreases pairs@.len() - i,
    {
        let pair = &pairs[i];
        proof {
            assert(pairs@.take(i + 1).drop_last() =~= pairs@.take(i as int));
            assert(pairs@.take(i + 1).last() == pairs@[i as int]);
        }
        pick_step(&mut sessionid, pair, SESSIONID);
        pick_step(&mut csrftoken, pair, CSRFTOKEN);
        pick_step(&mut ds_user_id, pair, DS_USER_ID);
        pick_step(&mut mid, pair, MID);
        pick_step(&mut ig_did, pair, IG_DID);
        i = i + 1;
    }
    assert(pairs@.take(pairs@.len() as int) =~= pairs@);
    match (sessionid, csrftoken, ds_user_id) {
        (Some(sessionid), Some(csrftoken), Some(ds_user_id)) => Ok(
            HarvestedCookies { sessionid, csrftoken, ds_user_id, mid, ig_did },
        ),
        _ => Err(AppError::SessionExpired),
    }
}

/// Whether the Instagram cookies show a logged-in session: a `sessionid`
/// with a non-empty value.
pub fn session_present(pairs: &[(String, String)]) -> (r: bool)
    ensures
        r == (picked(pairs@, SESSIONID@) is Some),
{
    let mut sessionid: Option<String> = None;
    let mut i: usize = 0;
    while i < pairs.len()
        invariant
            i <= pairs@.len(),
            opt_chars(sessionid) == picked(pairs@.take(i as int), SESSIONID@),
        decreases pairs@.len() - i,
    {
        proof {
            assert(pairs@.take(i + 1).drop_last() =~= pairs@.take(i as int));
            assert(pairs@.take(i + 1).last() == pairs@[i as int]);
        }
        pick_step(&mut sessionid, &pairs[i], SESSIONID);
        i = i + 1;
    }
    assert(pairs@.take(pairs@.len() as int) =~= pairs@);
    sessionid.is_some()
}

// ---------------------------------------------------------------------------
// Cookie jar filtering
// ---------------------------------------------------------------------------

/// One cookie of the webview's jar: name, value and domain attribute.
#[derive(Debug, Clone)]
pub struct JarCookie {
    pub name: String,
    pub value: String,
    pub domain: Option<String>,
}

/// `s` without its leading dots.
pub open spec fn without_leading_dots(s: Seq<char>) -> Seq<char>
    decreases s.len(),
{
    if s.len() > 0 && s[0] == '.' {
        without_leading_dots(s.drop_first())
    } else {
        s
    }
}

/// Whether a cookie with this domain attribute belongs to Instagram: its
/// domain, leading dots removed, is [`IG_DOMAIN`] or one of its subdomains.
pub open spec fn instagram_domain(domain: Option<Seq<char>>) -> bool {
    match domain {
        Some(d) => {
            let host = without_leading_dots(d);
            host == IG_DOMAIN@ || ends_with_chars(host, IG_SUBDOMAIN_SUFFIX@)
        },
        None => false,
    }
}

fn strip_leading_dots(v: &Vec<char>) -> (r: Vec<char>)
    ensures
        r@ == without_leading_dots(v@),
{
    let mut k: usize = 0;
    assert(v@.skip(0) =~= v@);
    while k < v.len() && v[k] == '.'
        invariant
            k <= v.len(),
            without_leading_dots(v@) == without_leading_dots(v@.skip(k as int)),
        decreases v.len() - k,
    {
        assert(v@.skip(k as int).drop_first() =~= v@.skip(k + 1));
        k = k + 1;
    }
    let mut r: Vec<char> = Vec::new();
    let mut j: usize = k;
    while j < v.len()
        invariant
            k <= j <= v.len(),
            r@ == v@.subrange(k as int, j as int),
        decreases v.len() - j,
    {
        r.push(v[j]);
        assert(r@ =~= v@.subrange(k as int, j + 1));
        j = j + 1;
    }
    assert(r@ =~= v@.skip(k as int));
    r
}

/// Whether a cookie with this domain attribute belongs to Instagram.
pub fn is_instagram_domain(domain: Option<&str>) -> (r: bool)
    ensures
        r == instagram_domain(
            match domain {
                Some(d) => Some(d@),
                None => None,
            },
        ),
{
    match domain {
        Some(d) => {
            let trimmed = strip_leading_dots(&chars_of(d));
            chars_equal(&trimmed, &chars_of(IG_DOMAIN)) || chars_end_with(
                &trimmed,
                &chars_of(IG_SUBDOMAIN_SUFFIX),
            )
        },
        None => false,
    }
}

/// The (name, value) pairs of the Instagram cookies among `cookies`, in order.
pub open spec fn instagram_pairs(cookies: Seq<JarCookie>) -> Seq<(Seq<char>, Seq<char>)>
    decreases cookies.len(),
{
    if cookies.len() == 0 {
        seq![]
    } else {
        let earlier = instagram_pairs(cookies.drop_last());
        let c = cookies.last();
        if instagram_domain(opt_chars(c.domain)) {
            earlier.push((c.name@, c.value@))
        } else {
            earlier
        }
    }
}

/// The (name, value) pairs of the cookies scoped to an Instagram domain.
pub fn instagram_cookie_pairs(cookies: &Vec<JarCookie>) -> (r: Vec<(String, String)>)
    ensures
        r@.map_values(|p: (String, String)| (p.0@, p.1@)) == instagram_pairs(cookies@),
{
    let mut out: Vec<(String, String)> = Vec::new();
    let mut i: usize = 0;
    while i < cookies.len()
        invariant
            i <= cookies.len(),
            out@.map_values(|p: (String, String)| (p.0@, p.1@)) == instagram_pairs(
                cookies@.take(i as int),
            ),
        decreases cookies.len() - i,
    {
        let c = &cookies[i];
        proof {
            assert(cookies@.take(i + 1).drop_last() =~= cookies@.take(i as int));
            assert(cookies@.take(i + 1).last() == cookies@[i as int]);
        }
        let domain: Option<&str> = match &c.domain {
            Some(d) => Some(d.as_str()),
            None => None,
        };
        let ghost before = out@;
        if is_instagram_domain(domain) {
            out.push((c.name.clone(), c.value.clone()));
            assert(out@.map_values(|p: (String, String)| (p.0@, p.1@)) =~= before.map_values(
                |p: (String, String)| (p.0@, p.1@),
            ).push((c.name@, c.value@)));
        }
        i = i + 1;
    }
    assert(cookies@.take(cookies.len() as int) =~= cookies@);
    out
}

} // verus!
