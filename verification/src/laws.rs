//! Properties that hold across the library's operations.

use vstd::prelude::*;
use vstd::string::*;

use crate::avatars::{cdn_host, is_digit, valid_user_id};
use crate::cookies::{
    harvested_map, holds_session, picked, HarvestedCookies, CSRFTOKEN, DS_USER_ID, IG_DID, MID,
    SESSIONID,
};
use crate::db::{
    last_with_id, lemma_last_with_id, lemma_rows_missing_from, lists_id, listed_before,
    relationship_for, rows_missing_from,
};
use crate::instagram::{
    backoff_secs_spec, cookies_hold_session, parsing_users, rate_limited, session_gone, user_parses,
    MAX_RETRIES,
};
use crate::json::Json;
use crate::models::{RelationshipStatus, UserRow};
use crate::text::{
    contains_chars, decimal_int, decimal_nat, digit_char, ends_with_chars, lemma_chars_lt_irreflexive,
    opt_chars,
};

verus! {

proof fn lemma_session_names_distinct()
    ensures
        SESSIONID@ != CSRFTOKEN@,
        SESSIONID@ != DS_USER_ID@,
        SESSIONID@ != MID@,
        SESSIONID@ != IG_DID@,
        CSRFTOKEN@ != DS_USER_ID@,
        CSRFTOKEN@ != MID@,
        CSRFTOKEN@ != IG_DID@,
        DS_USER_ID@ != MID@,
        DS_USER_ID@ != IG_DID@,
        MID@ != IG_DID@,
{
    reveal_strlit("sessionid");
    reveal_strlit("csrftoken");
    reveal_strlit("ds_user_id");
    reveal_strlit("mid");
    reveal_strlit("ig_did");
    assert(SESSIONID@[0] != CSRFTOKEN@[0]);
    assert(SESSIONID@[0] != DS_USER_ID@[0]);
    assert(SESSIONID@[0] != MID@[0]);
    assert(SESSIONID@[0] != IG_DID@[0]);
    assert(CSRFTOKEN@[0] != DS_USER_ID@[0]);
    assert(CSRFTOKEN@[0] != MID@[0]);
    assert(CSRFTOKEN@[0] != IG_DID@[0]);
    assert(DS_USER_ID@[0] != MID@[0]);
    assert(DS_USER_ID@[0] != IG_DID@[0]);
    assert(MID@[0] != IG_DID@[0]);
}

proof fn lemma_picked_nonempty(pairs: Seq<(String, String)>, name: Seq<char>)
    ensures
        picked(pairs, name) matches Some(v) ==> v.len() > 0,
    decreases pairs.len(),
{
    if pairs.len() > 0 {
        lemma_picked_nonempty(pairs.drop_last(), name);
    }
}

/// The cookies that `select` picks out of a jar make a map that the API
/// client accepts as a session: it holds a non-empty `csrftoken` and a
/// non-empty `sessionid`, the ones that were picked.
pub proof fn lemma_selected_cookies_hold_session(pairs: Seq<(String, String)>, c: HarvestedCookies)
    requires
        holds_session(pairs),
        picked(pairs, SESSIONID@) == Some(c.sessionid@),
        picked(pairs, CSRFTOKEN@) == Some(c.csrftoken@),
    ensures
        cookies_hold_session(harvested_map(c)),
        harvested_map(c)[SESSIONID@] == c.sessionid@,
        harvested_map(c)[CSRFTOKEN@] == c.csrftoken@,
{
    lemma_picked_nonempty(pairs, SESSIONID@);
    lemma_picked_nonempty(pairs, CSRFTOKEN@);
    lemma_session_names_distinct();
}

/// The map of harvested cookies names exactly the three required cookies and
/// the optional ones that are present, each with its value.
pub proof fn lemma_harvested_map_names(c: HarvestedCookies)
    ensures
        harvested_map(c).dom() == set![SESSIONID@, CSRFTOKEN@, DS_USER_ID@].union(
            if c.mid is Some {
                set![MID@]
            } else {
                Set::empty()
            },
        ).union(
            if c.ig_did is Some {
                set![IG_DID@]
            } else {
                Set::empty()
            },
        ),
        harvested_map(c)[DS_USER_ID@] == c.ds_user_id@,
        c.mid matches Some(v) ==> harvested_map(c)[MID@] == v@,
        c.ig_did matches Some(v) ==> harvested_map(c)[IG_DID@] == v@,
{
    lemma_session_names_distinct();
    assert(harvested_map(c).dom() =~= set![SESSIONID@, CSRFTOKEN@, DS_USER_ID@].union(
        if c.mid is Some {
            set![MID@]
        } else {
            Set::empty()
        },
    ).union(
        if c.ig_did is Some {
            set![IG_DID@]
        } else {
            Set::empty()
        },
    ));
}

/// A pair with an empty value, or with another name, leaves what is picked
/// for a name as it was.
pub proof fn lemma_irrelevant_pair_ignored(
    pairs: Seq<(String, String)>,
    extra: (String, String),
    name: Seq<char>,
)
    requires
        extra.0@ != name || extra.1@.len() == 0,
    ensures
        picked(pairs.push(extra), name) == picked(pairs, name),
{
    assert(pairs.push(extra).drop_last() =~= pairs);
}

/// Every relationship entry is of an account on one of the two lists; it is
/// `Mutual` exactly when the account is on both, `Fan` when only among the
/// followers, `Ghosted` when only among the followings, and never `New` or
/// `Lost`.
pub proof fn lemma_relationship_status(
    followers: Seq<UserRow>,
    following: Seq<UserRow>,
    id: Seq<char>,
)
    ensures
        relationship_for(followers, following, id) matches Some(r) ==> {
            &&& r.ig_user_id@ == id
            &&& r.follows_you || r.you_follow
            &&& (r.status == RelationshipStatus::Mutual) == (r.follows_you && r.you_follow)
            &&& (r.status == RelationshipStatus::Fan) == (r.follows_you && !r.you_follow)
            &&& (r.status == RelationshipStatus::Ghosted) == (!r.follows_you && r.you_follow)
            &&& r.status != RelationshipStatus::New
            &&& r.status != RelationshipStatus::Lost
        },
{
    lemma_last_with_id(followers, id);
    lemma_last_with_id(following, id);
}

/// Two entries in listing order are of different accounts: the merged list
/// names each account once.
pub proof fn lemma_listed_entries_distinct(
    followers: Seq<UserRow>,
    following: Seq<UserRow>,
    a: crate::models::Relationship,
    b: crate::models::Relationship,
)
    requires
        relationship_for(followers, following, a.ig_user_id@) == Some(a),
        relationship_for(followers, following, b.ig_user_id@) == Some(b),
        listed_before(a, b),
    ensures
        a.ig_user_id@ != b.ig_user_id@,
{
    if a.ig_user_id@ == b.ig_user_id@ {
        assert(a == b);
        lemma_chars_lt_irreflexive(crate::text::lowercase(a.username@));
        lemma_chars_lt_irreflexive(a.ig_user_id@);
    }
}

proof fn lemma_decimal_nat_digits(n: nat)
    ensures
        decimal_nat(n).len() > 0,
        forall|i: int| 0 <= i < decimal_nat(n).len() ==> is_digit(#[trigger] decimal_nat(n)[i]),
        n < 10 ==> decimal_nat(n).len() == 1,
        decimal_nat(n).len() <= decimal_nat(n / 10).len() + 1,
    decreases n,
{
    if n >= 10 {
        lemma_decimal_nat_digits(n / 10);
        let d = decimal_nat(n / 10);
        assert forall|i: int| 0 <= i < decimal_nat(n).len() implies is_digit(
            #[trigger] decimal_nat(n)[i],
        ) by {
            if i < d.len() {
                assert(decimal_nat(n)[i] == d[i]);
            } else {
                assert(decimal_nat(n)[i] == digit_char(n % 10));
            }
        }
    }
}

proof fn lemma_decimal_nat_short(n: nat, bound: nat, digits: nat)
    requires
        n < bound,
        digits >= 1,
        bound == pow10(digits),
    ensures
        decimal_nat(n).len() <= digits,
    decreases digits,
{
    lemma_decimal_nat_digits(n);
    if n >= 10 {
        assert(digits > 1) by {
            if digits == 1 {
                assert(pow10(1) == 10 * pow10(0));
            }
        }
        assert(n / 10 < pow10((digits - 1) as nat)) by {
            assert(pow10(digits) == 10 * pow10((digits - 1) as nat));
        }
        lemma_decimal_nat_short(n / 10, pow10((digits - 1) as nat), (digits - 1) as nat);
    }
}

/// Ten to the power `k`.
pub open spec fn pow10(k: nat) -> nat
    decreases k,
{
    if k == 0 {
        1
    } else {
        10 * pow10((k - 1) as nat)
    }
}

/// A numeric id that the API hands out as a `u64` (or a non-negative `i64`)
/// is read as its decimal digits, and these are a user id that the avatar
/// cache accepts as a file name.
pub proof fn lemma_numeric_id_is_valid_user_id(n: u64)
    ensures
        valid_user_id(decimal_int(n as int)),
{
    lemma_decimal_nat_digits(n as nat);
    assert(pow10(20) == 100000000000000000000nat) by {
        reveal_with_fuel(pow10, 21);
    }
    lemma_decimal_nat_short(n as nat, pow10(20), 20);
}

/// A valid user id holds neither `/` nor `.`, so as a file name it cannot
/// leave the cache directory.
pub proof fn lemma_valid_user_id_is_plain_name(id: Seq<char>)
    requires
        valid_user_id(id),
    ensures
        !id.contains('/'),
        !id.contains('.'),
{
}

/// Every follower that the diff reports as new shows up in the relationship
/// list of the current snapshot as following the owner, and every follower
/// reported as lost shows up there, if at all, as not following.
pub proof fn lemma_diff_agrees_with_relationships(
    current: Seq<UserRow>,
    previous: Seq<UserRow>,
    following: Seq<UserRow>,
)
    ensures
        forall|j: int|
            0 <= j < rows_missing_from(current, previous).len() ==> {
                let id = (#[trigger] rows_missing_from(current, previous)[j]).ig_user_id@;
                &&& relationship_for(current, following, id) is Some
                &&& relationship_for(current, following, id).unwrap().follows_you
            },
        forall|j: int|
            0 <= j < rows_missing_from(previous, current).len() ==> {
                let id = (#[trigger] rows_missing_from(previous, current)[j]).ig_user_id@;
                relationship_for(current, following, id) matches Some(r) ==> !r.follows_you
            },
{
    lemma_rows_missing_from(current, previous);
    lemma_rows_missing_from(previous, current);
    assert forall|j: int| 0 <= j < rows_missing_from(current, previous).len() implies {
        let id = (#[trigger] rows_missing_from(current, previous)[j]).ig_user_id@;
        &&& relationship_for(current, following, id) is Some
        &&& relationship_for(current, following, id).unwrap().follows_you
    } by {
        let row = rows_missing_from(current, previous)[j];
        let k = choose|k: int| 0 <= k < current.len() && current[k] == row;
        assert(lists_id(current, row.ig_user_id@));
        lemma_last_with_id(current, row.ig_user_id@);
    }
    assert forall|j: int| 0 <= j < rows_missing_from(previous, current).len() implies {
        let id = (#[trigger] rows_missing_from(previous, current)[j]).ig_user_id@;
        relationship_for(current, following, id) matches Some(r) ==> !r.follows_you
    } by {
        let row = rows_missing_from(previous, current)[j];
        lemma_last_with_id(current, row.ig_user_id@);
    }
}

proof fn lemma_picked_absent(pairs: Seq<(String, String)>, name: Seq<char>)
    requires
        forall|i: int| 0 <= i < pairs.len() ==> (#[trigger] pairs[i]).0@ != name,
    ensures
        picked(pairs, name) is None,
    decreases pairs.len(),
{
    if pairs.len() > 0 {
        let d = pairs.drop_last();
        assert forall|i: int| 0 <= i < d.len() implies (#[trigger] d[i]).0@ != name by {
            assert(d[i] == pairs[i]);
        }
        assert(pairs.last() == pairs[pairs.len() - 1]);
        lemma_picked_absent(d, name);
    }
}

proof fn lemma_picked_present(pairs: Seq<(String, String)>, name: Seq<char>, v: Seq<char>)
    requires
        v.len() > 0,
        forall|i: int| 0 <= i < pairs.len() && (#[trigger] pairs[i]).0@ == name ==> pairs[i].1@ == v,
        exists|i: int| 0 <= i < pairs.len() && (#[trigger] pairs[i]).0@ == name,
    ensures
        picked(pairs, name) == Some(v),
    decreases pairs.len(),
{
    let d = pairs.drop_last();
    assert(pairs.last() == pairs[pairs.len() - 1]);
    if pairs.last().0@ != name {
        assert forall|i: int| 0 <= i < d.len() && (#[trigger] d[i]).0@ == name implies d[i].1@
            == v by {
            assert(d[i] == pairs[i]);
        }
        let k = choose|i: int| 0 <= i < pairs.len() && (#[trigger] pairs[i]).0@ == name;
        assert(d[k] == pairs[k]);
        lemma_picked_present(d, name, v);
    }
}

proof fn lemma_picked_from_map(
    pairs: Seq<(String, String)>,
    m: Map<Seq<char>, Seq<char>>,
    name: Seq<char>,
)
    requires
        forall|i: int|
            0 <= i < pairs.len() ==> m.contains_key((#[trigger] pairs[i]).0@) && m[pairs[i].0@]
                == pairs[i].1@,
        forall|k: Seq<char>| m.contains_key(k) ==> exists|i: int| 0 <= i < pairs.len() && (#[trigger] pairs[i]).0@ == k,
        m.contains_key(name) ==> m[name].len() > 0,
    ensures
        picked(pairs, name) == (if m.contains_key(name) {
            Some(m[name])
        } else {
            None
        }),
{
    if m.contains_key(name) {
        lemma_picked_present(pairs, name, m[name]);
    } else {
        lemma_picked_absent(pairs, name);
    }
}

/// `select` gives the harvested cookies back from the entries of their map,
/// in whatever order the entries come: where `pairs` holds exactly the
/// entries of `harvested_map(c)` (values non-empty), every cookie that
/// `select` picks is the one `c` holds, and it finds a session.
pub proof fn lemma_select_recovers_harvested(c: HarvestedCookies, pairs: Seq<(String, String)>)
    requires
        c.sessionid@.len() > 0,
        c.csrftoken@.len() > 0,
        c.ds_user_id@.len() > 0,
        c.mid matches Some(v) ==> v@.len() > 0,
        c.ig_did matches Some(v) ==> v@.len() > 0,
        forall|i: int|
            0 <= i < pairs.len() ==> harvested_map(c).contains_key((#[trigger] pairs[i]).0@)
                && harvested_map(c)[pairs[i].0@] == pairs[i].1@,
        forall|k: Seq<char>|
            harvested_map(c).contains_key(k) ==> exists|i: int|
                0 <= i < pairs.len() && (#[trigger] pairs[i]).0@ == k,
    ensures
        holds_session(pairs),
        picked(pairs, SESSIONID@) == Some(c.sessionid@),
        picked(pairs, CSRFTOKEN@) == Some(c.csrftoken@),
        picked(pairs, DS_USER_ID@) == Some(c.ds_user_id@),
        picked(pairs, MID@) == opt_chars(c.mid),
        picked(pairs, IG_DID@) == opt_chars(c.ig_did),
{
    let m = harvested_map(c);
    lemma_harvested_map_names(c);
    lemma_session_names_distinct();
    assert(m.contains_key(SESSIONID@) && m[SESSIONID@] == c.sessionid@);
    assert(m.contains_key(CSRFTOKEN@) && m[CSRFTOKEN@] == c.csrftoken@);
    assert(m.contains_key(DS_USER_ID@));
    lemma_picked_from_map(pairs, m, SESSIONID@);
    lemma_picked_from_map(pairs, m, CSRFTOKEN@);
    lemma_picked_from_map(pairs, m, DS_USER_ID@);
    assert(m.contains_key(MID@) == c.mid is Some);
    assert(m.contains_key(IG_DID@) == c.ig_did is Some);
    lemma_picked_from_map(pairs, m, MID@);
    lemma_picked_from_map(pairs, m, IG_DID@);
}

// ---------------------------------------------------------------------------
// Relationship entries and the rows they come from
// ---------------------------------------------------------------------------

/// The row at `k` is the last one of `rows` with the id `id`, so it is the one
/// a map keyed by id keeps.
proof fn lemma_last_with_id_at(rows: Seq<UserRow>, id: Seq<char>, k: int)
    requires
        0 <= k < rows.len(),
        rows[k].ig_user_id@ == id,
        forall|j: int| k < j < rows.len() ==> (#[trigger] rows[j]).ig_user_id@ != id,
    ensures
        last_with_id(rows, id) == Some(rows[k]),
    decreases rows.len(),
{
    if k < rows.len() - 1 {
        let earlier = rows.drop_last();
        assert(rows[rows.len() - 1].ig_user_id@ != id);
        assert forall|j: int| k < j < earlier.len() implies (#[trigger] earlier[j]).ig_user_id@
            != id by {
            assert(earlier[j] == rows[j]);
        }
        lemma_last_with_id_at(earlier, id, k);
        assert(earlier[k] == rows[k]);
    }
}

/// The entry of an account that follows the owner is built from its last row
/// among the followers: it carries that row's id, username, full name,
/// verified flag and picture URL, says that the account follows the owner,
/// says that the owner follows it back exactly when some following row has
/// its id, and is `Mutual` in that case and `Fan` otherwise.
pub proof fn lemma_follower_entry_copies_row(
    followers: Seq<UserRow>,
    following: Seq<UserRow>,
    id: Seq<char>,
    k: int,
)
    requires
        0 <= k < followers.len(),
        followers[k].ig_user_id@ == id,
        forall|j: int| k < j < followers.len() ==> (#[trigger] followers[j]).ig_user_id@ != id,
    ensures
        relationship_for(followers, following, id) matches Some(r) && {
            let followed = exists|j: int|
                0 <= j < following.len() && (#[trigger] following[j]).ig_user_id@ == id;
            &&& r.ig_user_id == followers[k].ig_user_id
            &&& r.username == followers[k].username
            &&& r.full_name == followers[k].full_name
            &&& r.is_verified == followers[k].is_verified
            &&& r.profile_pic_url == followers[k].profile_pic_url
            &&& r.follows_you
            &&& r.you_follow == followed
            &&& r.status == (if followed {
                RelationshipStatus::Mutual
            } else {
                RelationshipStatus::Fan
            })
        },
{
    lemma_last_with_id_at(followers, id, k);
    lemma_last_with_id(following, id);
}

/// The entry of an account that the owner follows and that is on no follower
/// row is built from its last row among the followings: it carries that
/// row's id, username, full name, verified flag and picture URL, and is
/// `Ghosted`: followed by the owner, not following back.
pub proof fn lemma_followed_entry_copies_row(
    followers: Seq<UserRow>,
    following: Seq<UserRow>,
    id: Seq<char>,
    k: int,
)
    requires
        forall|j: int| 0 <= j < followers.len() ==> (#[trigger] followers[j]).ig_user_id@ != id,
        0 <= k < following.len(),
        following[k].ig_user_id@ == id,
        forall|j: int| k < j < following.len() ==> (#[trigger] following[j]).ig_user_id@ != id,
    ensures
        relationship_for(followers, following, id) matches Some(r) && {
            &&& r.ig_user_id == following[k].ig_user_id
            &&& r.username == following[k].username
            &&& r.full_name == following[k].full_name
            &&& r.is_verified == following[k].is_verified
            &&& r.profile_pic_url == following[k].profile_pic_url
            &&& !r.follows_you
            &&& r.you_follow
            &&& r.status == RelationshipStatus::Ghosted
        },
{
    lemma_last_with_id(followers, id);
    lemma_last_with_id_at(following, id, k);
}

// ---------------------------------------------------------------------------
// Which users of a page make rows
// ---------------------------------------------------------------------------

/// Whether a member can stand for an account id: a non-empty string, or a
/// number that fits `i64` or `u64`.
pub open spec fn id_member(v: Option<Json>) -> bool {
    match v {
        Some(Json::Str(s)) => s@.len() > 0,
        Some(Json::Number(n)) => n.as_i64 is Some || n.as_u64 is Some,
        _ => false,
    }
}

/// A user object makes a row exactly when its `pk` or its `id` can stand for
/// an account id and its `username` is a string; nothing else about it (its
/// full name, picture, or whether it is verified) matters.
pub proof fn lemma_user_parses_exactly(u: Json)
    ensures
        user_parses(u) <==> {
            &&& id_member(u.field("pk"@)) || id_member(u.field("id"@))
            &&& u.field("username"@) matches Some(Json::Str(_))
        },
{
}

/// The users of a page that make rows are exactly those that parse, each
/// once and in page order: a page is filtered, never reordered, thinned or
/// repeated.
pub proof fn lemma_parsing_users_is_filter(users: Seq<Json>)
    ensures
        parsing_users(users) == users.filter(|u: Json| user_parses(u)),
    decreases users.len(),
{
    reveal(Seq::filter);
    if users.len() > 0 {
        lemma_parsing_users_is_filter(users.drop_last());
    }
}

// ---------------------------------------------------------------------------
// Followers gained and lost
// ---------------------------------------------------------------------------

/// The rows reported missing from `other` are exactly the rows of `rows`
/// whose id no row of `other` has, each as often as it occurs in `rows` and
/// in the order of `rows`.
pub proof fn lemma_rows_missing_is_filter(rows: Seq<UserRow>, other: Seq<UserRow>)
    ensures
        rows_missing_from(rows, other) == rows.filter(
            |r: UserRow|
                !(exists|k: int|
                    0 <= k < other.len() && (#[trigger] other[k]).ig_user_id@ == r.ig_user_id@),
        ),
    decreases rows.len(),
{
    reveal(Seq::filter);
    if rows.len() > 0 {
        lemma_rows_missing_is_filter(rows.drop_last(), other);
    }
}

// ---------------------------------------------------------------------------
// Responses
// ---------------------------------------------------------------------------

/// HTTP 429 is a rate limit whatever its body holds, and the session counts
/// as gone only where that body mentions `"login_required"`: such a response
/// is retried after the backoff, and reported as rate-limited once the
/// retries are spent.
pub proof fn lemma_too_many_requests_is_rate_limit(body: Seq<char>)
    ensures
        rate_limited(429, body),
        session_gone(429, body) == contains_chars(body, "\"login_required\""@),
{
}

/// The first retry waits 5 seconds and each later one three times as long as
/// the one before.
pub proof fn lemma_backoff_triples(attempt: int)
    requires
        0 < attempt < MAX_RETRIES,
    ensures
        backoff_secs_spec(0) == 5,
        backoff_secs_spec(attempt) == 3 * backoff_secs_spec(attempt - 1),
{
}

// ---------------------------------------------------------------------------
// Avatar hosts
// ---------------------------------------------------------------------------

/// `fbcdn.net`, `cdninstagram.com` and every host under either, however many
/// labels stand before the domain, are avatar CDNs.
pub proof fn lemma_cdn_subdomains_allowed(prefix: Seq<char>)
    ensures
        cdn_host("fbcdn.net"@),
        cdn_host("cdninstagram.com"@),
        cdn_host(prefix + ".fbcdn.net"@),
        cdn_host(prefix + ".cdninstagram.com"@),
{
    let fb = prefix + ".fbcdn.net"@;
    assert(fb.subrange(fb.len() - ".fbcdn.net"@.len(), fb.len() as int) =~= ".fbcdn.net"@);
    let ci = prefix + ".cdninstagram.com"@;
    assert(ci.subrange(ci.len() - ".cdninstagram.com"@.len(), ci.len() as int)
        =~= ".cdninstagram.com"@);
}

/// Nothing else is an avatar CDN: a host that passes is one of the two
/// domains or a name under one of them.
pub proof fn lemma_cdn_hosts_are_subdomains(host: Seq<char>)
    requires
        cdn_host(host),
    ensures
        host == "fbcdn.net"@ || host == "cdninstagram.com"@ || (exists|p: Seq<char>|
            host == p + ".fbcdn.net"@) || (exists|p: Seq<char>| host == p + ".cdninstagram.com"@),
{
    if host != "fbcdn.net"@ && host != "cdninstagram.com"@ {
        if ends_with_chars(host, ".fbcdn.net"@) {
            let p = host.subrange(0, host.len() - ".fbcdn.net"@.len());
            assert(host =~= p + ".fbcdn.net"@);
        } else {
            let p = host.subrange(0, host.len() - ".cdninstagram.com"@.len());
            assert(host =~= p + ".cdninstagram.com"@);
        }
    }
}

} // verus!
