//! The Instagram web API as the client sees it: the set-up of a session,
//! the paths it calls, the judgement of each response, the reading of
//! profiles and user lists out of the JSON, and the paging through follower
//! and following lists.

use vstd::prelude::*;
use vstd::string::*;
use vstd::utf8::encode_utf8;

use crate::cookies::{CookieMap, CSRFTOKEN, DS_USER_ID, IG_DID, MID, SESSIONID};
use crate::error::{is_io_error, AppError, IoErrorKind};
use crate::json::{json_parse, parse_json, Json};
use crate::models::{OwnProfile, UserRow};
use crate::text::{decimal_int, i64_to_decimal, opt_chars, str_contains, u64_to_decimal, contains_chars};

verus! {

/// The application id the web client announces.
pub const X_IG_APP_ID: &'static str = "936619743392459";

/// The ASBD id the web client announces.
pub const X_ASBD_ID: &'static str = "198387";

/// The `Referer` of every call.
pub const REFERER_URL: &'static str = "https://www.instagram.com/";

/// The `Accept` of every call.
pub const ACCEPT_VALUE: &'static str = "*/*";

/// Where the API lives.
pub const BASE_URL: &'static str = "https://www.instagram.com";

/// The attributes with which the session cookies are seeded.
pub const COOKIE_ATTRIBUTES: &'static str = "; Domain=.instagram.com; Path=/";

/// How many users a page asks for.
pub const PAGE_SIZE: &'static str = "50";

/// The pause between two pages, in milliseconds.
pub const PAGE_PAUSE_MILLIS: u64 = 1500;

/// The most users one listing collects.
pub const MAX_USERS: usize = 20000;

/// How many times a rate-limited call is tried again.
pub const MAX_RETRIES: usize = 3;

/// The path of the profile lookup by username.
pub const WEB_PROFILE_PATH: &'static str = "/api/v1/users/web_profile_info/";

// ---------------------------------------------------------------------------
// Session set-up
// ---------------------------------------------------------------------------

/// Whether http's `HeaderValue::from_str` accepts these bytes: each is a tab,
/// or at least 32 and not 127.
pub open spec fn header_bytes_ok(b: Seq<u8>) -> bool {
    forall|i: int| 0 <= i < b.len() ==> ((#[trigger] b[i] >= 32 && b[i] != 127) || b[i] == 9)
}

/// Whether `reqwest::header::HeaderValue::from_str` accepts `s`.
#[verifier::external_body]
fn header_value_accepts(s: &str) -> (r: bool)
    ensures
        r == header_bytes_ok(encode_utf8(s@)),
{
    reqwest::header::HeaderValue::from_str(s).is_ok()
}

/// What the HTTP client of a session is built from.
#[derive(Debug)]
pub struct ClientSetup {
    pub user_agent: String,
    pub csrftoken: String,
    pub cookie_lines: Vec<String>,
    pub base_url: String,
}

/// The `Set-Cookie` line that seeds the cookie `name` with `value`.
pub open spec fn cookie_line(name: Seq<char>, value: Seq<char>) -> Seq<char> {
    name + "="@ + value + COOKIE_ATTRIBUTES@
}

/// The seed lines for the session cookies present in `m`, in the order
/// `sessionid`, `csrftoken`, `ds_user_id`, `mid`, `ig_did`.
pub open spec fn seed_lines(m: Map<Seq<char>, Seq<char>>) -> Seq<Seq<char>> {
    let names = seq![SESSIONID@, CSRFTOKEN@, DS_USER_ID@, MID@, IG_DID@];
    seed_lines_of(m, names)
}

/// The seed lines for those of `names` that `m` holds, in order.
pub open spec fn seed_lines_of(m: Map<Seq<char>, Seq<char>>, names: Seq<Seq<char>>) -> Seq<
    Seq<char>,
>
    decreases names.len(),
{
    if names.len() == 0 {
        seq![]
    } else {
        let earlier = seed_lines_of(m, names.drop_last());
        let n = names.last();
        if m.contains_key(n) {
            earlier.push(cookie_line(n, m[n]))
        } else {
            earlier
        }
    }
}

/// Whether the cookies hold a session the API accepts: a non-empty
/// `csrftoken` and a non-empty `sessionid`.
pub open spec fn cookies_hold_session(m: Map<Seq<char>, Seq<char>>) -> bool {
    &&& m.contains_key(CSRFTOKEN@) && m[CSRFTOKEN@].len() > 0
    &&& m.contains_key(SESSIONID@) && m[SESSIONID@].len() > 0
}

fn push_seed_line(lines: &mut Vec<String>, cookies: &CookieMap, name: &str)
    ensures
        final(lines)@.map_values(|l: String| l@) == if cookies@.contains_key(name@) {
            old(lines)@.map_values(|l: String| l@).push(cookie_line(name@, cookies@[name@]))
        } else {
            old(lines)@.map_values(|l: String| l@)
        },
{
    if let Some(value) = cookies.get(name) {
        let line = name.to_string().concat("=").concat(value.as_str()).concat(COOKIE_ATTRIBUTES);
        let ghost before = lines@;
        lines.push(line);
        assert(lines@.map_values(|l: String| l@) =~= before.map_values(|l: String| l@).push(
            cookie_line(name@, cookies@[name@]),
        ));
    }
}

/// Checks the session cookies and the header values, and gathers what the
/// client of the session is built from. Without a non-empty `csrftoken`, or
/// without a non-empty `sessionid`, there is no session: `SessionExpired`.
/// A `csrftoken` or user agent that is no valid header value is refused as
/// invalid data.
pub fn client_setup(user_agent: String, cookies: &CookieMap, base_url: String) -> (r: Result<
    ClientSetup,
    AppError,
>)
    ensures
        !cookies_hold_session(cookies@) ==> r matches Err(AppError::SessionExpired),
        cookies_hold_session(cookies@) && !header_bytes_ok(encode_utf8(cookies@[CSRFTOKEN@]))
            ==> (r matches Err(e) && is_io_error(
            e,
            IoErrorKind::InvalidData,
            "csrftoken is not a valid header value"@,
        )),
        cookies_hold_session(cookies@) && header_bytes_ok(encode_utf8(cookies@[CSRFTOKEN@]))
            && !header_bytes_ok(encode_utf8(user_agent@)) ==> (r matches Err(e) && is_io_error(
            e,
            IoErrorKind::InvalidData,
            "user agent is not a valid header value"@,
        )),
        r is Ok <==> cookies_hold_session(cookies@) && header_bytes_ok(
            encode_utf8(cookies@[CSRFTOKEN@]),
        ) && header_bytes_ok(encode_utf8(user_agent@)),
        r matches Ok(s) ==> {
            &&& s.user_agent@ == user_agent@
            &&& s.csrftoken@ == cookies@[CSRFTOKEN@]
            &&& s.base_url@ == base_url@
            &&& s.cookie_lines@.map_values(|l: String| l@) == seed_lines(cookies@)
        },
{
    let csrftoken: String = match cookies.get(CSRFTOKEN) {
        Some(v) if !v.as_str().is_empty() => v.clone(),
        _ => {
            return Err(AppError::SessionExpired);
        },
    };
    match cookies.get(SESSIONID) {
        Some(v) if !v.as_str().is_empty() => {},
        _ => {
            return Err(AppError::SessionExpired);
        },
    }
    let mut lines: Vec<String> = Vec::new();
    let ghost m = cookies@;
    let ghost n1 = seq![SESSIONID@];
    let ghost n2 = n1.push(CSRFTOKEN@);
    let ghost n3 = n2.push(DS_USER_ID@);
    let ghost n4 = n3.push(MID@);
    let ghost n5 = n4.push(IG_DID@);
    proof {
        assert(n1.drop_last() =~= Seq::<Seq<char>>::empty());
        assert(lines@.map_values(|l: String| l@) =~= seed_lines_of(m, n1.drop_last()));
    }
    push_seed_line(&mut lines, cookies, SESSIONID);
    assert(lines@.map_values(|l: String| l@) == seed_lines_of(m, n1));
    push_seed_line(&mut lines, cookies, CSRFTOKEN);
    assert(n2.drop_last() == n1);
    assert(lines@.map_values(|l: String| l@) == seed_lines_of(m, n2));
    push_seed_line(&mut lines, cookies, DS_USER_ID);
    assert(n3.drop_last() == n2);
    assert(lines@.map_values(|l: String| l@) == seed_lines_of(m, n3));
    push_seed_line(&mut lines, cookies, MID);
    assert(n4.drop_last() == n3);
    assert(lines@.map_values(|l: String| l@) == seed_lines_of(m, n4));
    push_seed_line(&mut lines, cookies, IG_DID);
    assert(n5.drop_last() == n4);
    assert(lines@.map_values(|l: String| l@) == seed_lines_of(m, n5));
    assert(n5 =~= seq![SESSIONID@, CSRFTOKEN@, DS_USER_ID@, MID@, IG_DID@]);
    if !header_value_accepts(csrftoken.as_str()) {
        return Err(AppError::io(IoErrorKind::InvalidData, "csrftoken is not a valid header value"));
    }
    if !header_value_accepts(user_agent.as_str()) {
        return Err(AppError::io(IoErrorKind::InvalidData, "user agent is not a valid header value"));
    }
    Ok(ClientSetup { user_agent, csrftoken, cookie_lines: lines, base_url })
}

/// The headers that every call of a session carries, by lower-case name, in
/// the order they are set: `Accept`, `Referer`, the web client's app id and
/// ASBD id, `X-Requested-With`, the CSRF token and the user agent.
pub open spec fn session_headers(csrftoken: Seq<char>, user_agent: Seq<char>) -> Seq<
    (Seq<char>, Seq<char>),
> {
    seq![
        ("accept"@, ACCEPT_VALUE@),
        ("referer"@, REFERER_URL@),
        ("x-ig-app-id"@, X_IG_APP_ID@),
        ("x-asbd-id"@, X_ASBD_ID@),
        ("x-requested-with"@, "XMLHttpRequest"@),
        ("x-csrftoken"@, csrftoken),
        ("user-agent"@, user_agent),
    ]
}

impl ClientSetup {
    /// The headers every call of the session carries, as (name, value) pairs.
    pub fn headers(&self) -> (r: Vec<(String, String)>)
        ensures
            pairs_view(r@) == session_headers(self.csrftoken@, self.user_agent@),
    {
        let mut r: Vec<(String, String)> = Vec::new();
        r.push(("accept".to_string(), ACCEPT_VALUE.to_string()));
        r.push(("referer".to_string(), REFERER_URL.to_string()));
        r.push(("x-ig-app-id".to_string(), X_IG_APP_ID.to_string()));
        r.push(("x-asbd-id".to_string(), X_ASBD_ID.to_string()));
        r.push(("x-requested-with".to_string(), "XMLHttpRequest".to_string()));
        r.push(("x-csrftoken".to_string(), self.csrftoken.clone()));
        r.push(("user-agent".to_string(), self.user_agent.clone()));
        assert(pairs_view(r@) =~= session_headers(self.csrftoken@, self.user_agent@));
        r
    }
}

// ---------------------------------------------------------------------------
// Paths
// ---------------------------------------------------------------------------

/// The path of the profile lookup by id.
pub fn user_info_path(user_id: &str) -> (p: String)
    ensures
        p@ == "/api/v1/users/"@ + user_id@ + "/info/"@,
{
    "/api/v1/users/".to_string().concat(user_id).concat("/info/")
}

/// The path of the follower list of `user_id`.
pub fn followers_path(user_id: &str) -> (p: String)
    ensures
        p@ == "/api/v1/friendships/"@ + user_id@ + "/followers/"@,
{
    "/api/v1/friendships/".to_string().concat(user_id).concat("/followers/")
}

/// The path of the following list of `user_id`.
pub fn following_path(user_id: &str) -> (p: String)
    ensures
        p@ == "/api/v1/friendships/"@ + user_id@ + "/following/"@,
{
    "/api/v1/friendships/".to_string().concat(user_id).concat("/following/")
}

/// The URL of `path` under `base_url`.
pub fn request_url(base_url: &str, path: &str) -> (u: String)
    ensures
        u@ == base_url@ + path@,
{
    base_url.to_string().concat(path)
}

// ---------------------------------------------------------------------------
// Responses
// ---------------------------------------------------------------------------

/// How long to wait before the retry after the given number of earlier
/// retries: 5, 15, then 45 seconds.
pub open spec fn backoff_secs_spec(attempt: int) -> u64 {
    if attempt == 0 {
        5
    } else if attempt == 1 {
        15
    } else {
        45
    }
}

/// How long to wait before the retry after `attempt` earlier retries.
pub fn backoff_secs(attempt: usize) -> (s: u64)
    requires
        attempt < MAX_RETRIES,
    ensures
        s == backoff_secs_spec(attempt as int),
{
    match attempt {
        0 => 5,
        1 => 15,
        _ => 45,
    }
}

/// What to do with a response that is not an error.
#[derive(Debug)]
pub enum ResponseStep {
    /// Wait, then send the call again as the given attempt.
    Retry { wait_secs: u64, next_attempt: usize },
    /// The decoded body.
    Body(Json),
}

/// Whether a response says the session is gone: HTTP 401, or a body that
/// mentions `"login_required"`.
pub open spec fn session_gone(status: u16, body: Seq<char>) -> bool {
    status == 401 || contains_chars(body, "\"login_required\""@)
}

/// Whether a response says the caller is being rate-limited: HTTP 429, or a
/// body that mentions `"feedback_required"` or `"checkpoint_required"`.
pub open spec fn rate_limited(status: u16, body: Seq<char>) -> bool {
    status == 429 || contains_chars(body, "\"feedback_required\""@) || contains_chars(
        body,
        "\"checkpoint_required\""@,
    )
}

/// Judges the response to a call that was sent after `attempt` retries. A
/// gone session wins over everything; rate limiting is met by a retry after
/// 5, 15 and 45 seconds and then by `RateLimited`; any other status outside
/// 200..=299 is an error that names it; otherwise the body is decoded as
/// JSON, and a body that does not decode is a `Decode` error.
pub fn judge_response(status: u16, body: &str, attempt: usize) -> (r: Result<ResponseStep, AppError>)
    ensures
        session_gone(status, body@) ==> r matches Err(AppError::SessionExpired),
        !session_gone(status, body@) && rate_limited(status, body@) ==> if attempt >= MAX_RETRIES {
            r matches Err(AppError::RateLimited)
        } else {
            r matches Ok(ResponseStep::Retry { wait_secs, next_attempt }) && wait_secs
                == backoff_secs_spec(attempt as int) && next_attempt == attempt + 1
        },
        !session_gone(status, body@) && !rate_limited(status, body@) && !(200 <= status <= 299)
            ==> (r matches Err(e) && is_io_error(
            e,
            IoErrorKind::Other,
            "instagram returned HTTP "@ + decimal_int(status as int),
        )),
        !session_gone(status, body@) && !rate_limited(status, body@) && 200 <= status <= 299
            ==> match json_parse(body@) {
            Ok(j) => r matches Ok(ResponseStep::Body(b)) && b == j,
            Err(m) => r matches Err(AppError::Decode(d)) && d@ == m,
        },
{
    if status == 401 || str_contains(body, "\"login_required\"") {
        return Err(AppError::SessionExpired);
    }
    let limited = status == 429 || str_contains(body, "\"feedback_required\"") || str_contains(
        body,
        "\"checkpoint_required\"",
    );
    if limited {
        if attempt >= MAX_RETRIES {
            return Err(AppError::RateLimited);
        }
        return Ok(ResponseStep::Retry { wait_secs: backoff_secs(attempt), next_attempt: attempt + 1 });
    }
    if !(200 <= status && status <= 299) {
        let message = "instagram returned HTTP ".to_string().concat(
            u64_to_decimal(status as u64).as_str(),
        );
        return Err(AppError::io(IoErrorKind::Other, message.as_str()));
    }
    match parse_json(body) {
        Ok(j) => Ok(ResponseStep::Body(j)),
        Err(m) => Err(AppError::Decode(m)),
    }
}

// ---------------------------------------------------------------------------
// Reading the JSON
// ---------------------------------------------------------------------------

/// The characters of a string member.
pub open spec fn text_of(v: Option<Json>) -> Option<Seq<char>> {
    match v {
        Some(j) => j.text(),
        None => None,
    }
}

/// The characters of a string member that is not empty.
pub open spec fn nonempty_text(v: Option<Json>) -> Option<Seq<char>> {
    match text_of(v) {
        Some(t) => if t.len() > 0 {
            Some(t)
        } else {
            None
        },
        None => None,
    }
}

/// The member `key` of an optional object.
pub open spec fn sub_field(v: Option<Json>, key: Seq<char>) -> Option<Json> {
    match v {
        Some(j) => j.field(key),
        None => None,
    }
}

/// An optional number that fits `i64`, else 0.
pub open spec fn int_or_zero(v: Option<Json>) -> i64 {
    match v {
        Some(j) => match j.int64() {
            Some(n) => n,
            None => 0,
        },
        None => 0,
    }
}

/// The first of two optional members that is present.
pub open spec fn first_present(a: Option<Json>, b: Option<Json>) -> Option<Json> {
    if a is Some {
        a
    } else {
        b
    }
}

/// The id an id-like member stands for: a non-empty string as it is, a number
/// that fits `i64` or `u64` in decimal; nothing for anything else.
pub open spec fn id_text(v: Option<Json>) -> Option<Seq<char>> {
    match v {
        None => None,
        Some(j) => if nonempty_text(Some(j)) is Some {
            j.text()
        } else if j.int64() is Some {
            Some(decimal_int(j.int64().unwrap() as int))
        } else if j.uint64() is Some {
            Some(decimal_int(j.uint64().unwrap() as int))
        } else {
            None
        },
    }
}

fn text_copy(v: Option<&Json>) -> (r: Option<String>)
    ensures
        opt_chars(r) == text_of(
            match v {
                Some(j) => Some(*j),
                None => None,
            },
        ),
{
    match v {
        Some(j) => match j.as_str() {
            Some(s) => Some(s.clone()),
            None => None,
        },
        None => None,
    }
}

fn nonempty_text_copy(v: Option<&Json>) -> (r: Option<String>)
    ensures
        opt_chars(r) == nonempty_text(
            match v {
                Some(j) => Some(*j),
                None => None,
            },
        ),
{
    match v {
        Some(j) => match j.as_str() {
            Some(s) => if s.as_str().is_empty() {
                None
            } else {
                Some(s.clone())
            },
            None => None,
        },
        None => None,
    }
}

fn member<'a>(v: Option<&'a Json>, key: &str) -> (r: Option<&'a Json>)
    ensures
        match r {
            Some(j) => sub_field(
                match v {
                    Some(x) => Some(*x),
                    None => None,
                },
                key@,
            ) == Some(*j),
            None => sub_field(
                match v {
                    Some(x) => Some(*x),
                    None => None,
                },
                key@,
            ) is None,
        },
{
    match v {
        Some(j) => j.get(key),
        None => None,
    }
}

fn int_or_zero_of(v: Option<&Json>) -> (n: i64)
    ensures
        n == int_or_zero(
            match v {
                Some(j) => Some(*j),
                None => None,
            },
        ),
{
    match v {
        Some(j) => match j.as_i64() {
            Some(n) => n,
            None => 0,
        },
        None => 0,
    }
}

/// The id an id-like member stands for: a non-empty string as it is, else a
/// number that fits `i64` or `u64` in decimal; `None` otherwise.
pub fn extract_id(v: Option<&Json>) -> (r: Option<String>)
    ensures
        opt_chars(r) == id_text(
            match v {
                Some(j) => Some(*j),
                None => None,
            },
        ),
{
    let j = match v {
        Some(j) => j,
        None => {
            return None;
        },
    };
    if let Some(s) = j.as_str() {
        if !s.as_str().is_empty() {
            return Some(s.clone());
        }
    }
    if let Some(n) = j.as_i64() {
        return Some(i64_to_decimal(n));
    }
    if let Some(n) = j.as_u64() {
        return Some(u64_to_decimal(n));
    }
    None
}

/// The id of a user object: its `pk`, else its `id`.
pub open spec fn user_id_of(v: Json) -> Option<Seq<char>> {
    let pk = id_text(v.field("pk"@));
    if pk is Some {
        pk
    } else {
        id_text(v.field("id"@))
    }
}

/// Whether a user object makes a row: it has an id and a string `username`.
pub open spec fn user_parses(v: Json) -> bool {
    user_id_of(v) is Some && text_of(v.field("username"@)) is Some
}

/// Whether `r` is the row read from the user object `v`: its id, its
/// username, its non-empty full name and picture URL, and its `is_verified`
/// flag (false where absent or not a boolean).
pub open spec fn row_of_user(v: Json, r: UserRow) -> bool {
    &&& user_parses(v)
    &&& r.ig_user_id@ == user_id_of(v).unwrap()
    &&& r.username@ == text_of(v.field("username"@)).unwrap()
    &&& opt_chars(r.full_name) == nonempty_text(v.field("full_name"@))
    &&& r.is_verified == match v.field("is_verified"@) {
        Some(b) => match b.boolean() {
            Some(x) => x,
            None => false,
        },
        None => false,
    }
    &&& opt_chars(r.profile_pic_url) == nonempty_text(v.field("profile_pic_url"@))
}

/// Reads one entry of a user list; `None` where it lacks an id or a
/// username.
pub fn parse_user(v: &Json) -> (r: Option<UserRow>)
    ensures
        r is Some <==> user_parses(*v),
        r matches Some(row) ==> row_of_user(*v, row),
{
    let ig_user_id = match extract_id(v.get("pk")) {
        Some(id) => id,
        None => match extract_id(v.get("id")) {
            Some(id) => id,
            None => {
                return None;
            },
        },
    };
    let username = match text_copy(v.get("username")) {
        Some(u) => u,
        None => {
            return None;
        },
    };
    let full_name = nonempty_text_copy(v.get("full_name"));
    let is_verified = match v.get("is_verified") {
        Some(b) => match b.as_bool() {
            Some(x) => x,
            None => false,
        },
        None => false,
    };
    let profile_pic_url = nonempty_text_copy(v.get("profile_pic_url"));
    Some(UserRow { ig_user_id, username, full_name, is_verified, profile_pic_url })
}

/// The `user` object of a lookup by id.
pub open spec fn by_id_user(json: Json) -> Option<Json> {
    json.field("user"@)
}

/// Reads the answer to a lookup by id. The id is the user's `pk`, else its
/// `id`, else `fallback_id`; the counts are `follower_count` and
/// `following_count` where present, else the `count` of `edge_followed_by`
/// and `edge_follow`, and 0 where that is no `i64`. A missing `user` or a
/// missing or empty `username` is invalid data.
pub fn parse_profile_by_id(json: &Json, fallback_id: &str) -> (r: Result<OwnProfile, AppError>)
    ensures
        by_id_user(*json) is None ==> (r matches Err(e) && is_io_error(
            e,
            IoErrorKind::InvalidData,
            "by-id profile response missing user"@,
        )),
        (by_id_user(*json) matches Some(u) && nonempty_text(u.field("username"@)) is None) ==> (r matches Err(e) && is_io_error(
            e,
            IoErrorKind::InvalidData,
            "by-id profile response missing username"@,
        )),
        r is Ok <==> (by_id_user(*json) matches Some(u) && nonempty_text(u.field("username"@)) is Some),
        r matches Ok(p) ==> {
            let u = by_id_user(*json).unwrap();
            &&& p.id@ == (if user_id_of(u) is Some {
                user_id_of(u).unwrap()
            } else {
                fallback_id@
            })
            &&& p.username@ == nonempty_text(u.field("username"@)).unwrap()
            &&& opt_chars(p.full_name) == nonempty_text(u.field("full_name"@))
            &&& p.followers_count == int_or_zero(
                first_present(
                    u.field("follower_count"@),
                    sub_field(u.field("edge_followed_by"@), "count"@),
                ),
            )
            &&& p.following_count == int_or_zero(
                first_present(
                    u.field("following_count"@),
                    sub_field(u.field("edge_follow"@), "count"@),
                ),
            )
        },
{
    let user = match json.get("user") {
        Some(u) => u,
        None => {
            return Err(
                AppError::io(IoErrorKind::InvalidData, "by-id profile response missing user"),
            );
        },
    };
    let id = match extract_id(user.get("pk")) {
        Some(id) => id,
        None => match extract_id(user.get("id")) {
            Some(id) => id,
            None => fallback_id.to_string(),
        },
    };
    let username = match nonempty_text_copy(user.get("username")) {
        Some(u) => u,
        None => {
            return Err(
                AppError::io(IoErrorKind::InvalidData, "by-id profile response missing username"),
            );
        },
    };
    let full_name = nonempty_text_copy(user.get("full_name"));
    let followers = match user.get("follower_count") {
        Some(v) => Some(v),
        None => member(user.get("edge_followed_by"), "count"),
    };
    let following = match user.get("following_count") {
        Some(v) => Some(v),
        None => member(user.get("edge_follow"), "count"),
    };
    Ok(
        OwnProfile {
            id,
            username,
            full_name,
            followers_count: int_or_zero_of(followers),
            following_count: int_or_zero_of(following),
        },
    )
}

/// The `data.user` object of a lookup by username.
pub open spec fn web_info_user(json: Json) -> Option<Json> {
    sub_field(json.field("data"@), "user"@)
}

/// The id of the user object of a lookup by username: its `id`, else its
/// `pk`.
pub open spec fn web_user_id(u: Json) -> Option<Seq<char>> {
    let id = id_text(u.field("id"@));
    if id is Some {
        id
    } else {
        id_text(u.field("pk"@))
    }
}

/// Reads the answer to a lookup by username. The username is the one in the
/// answer where it is a string, else `username`; the counts are the `count`
/// of `edge_followed_by` and `edge_follow`, 0 where that is no `i64`. A
/// missing `data.user` or a missing id is invalid data.
pub fn parse_web_profile(json: &Json, username: &str) -> (r: Result<OwnProfile, AppError>)
    ensures
        web_info_user(*json) is None ==> (r matches Err(e) && is_io_error(
            e,
            IoErrorKind::InvalidData,
            "profile response missing data.user"@,
        )),
        (web_info_user(*json) matches Some(u) && web_user_id(u) is None) ==> (r matches Err(e) && is_io_error(
            e,
            IoErrorKind::InvalidData,
            "profile response missing user id"@,
        )),
        r is Ok <==> (web_info_user(*json) matches Some(u) && web_user_id(u) is Some),
        r matches Ok(p) ==> {
            let u = web_info_user(*json).unwrap();
            &&& p.id@ == web_user_id(u).unwrap()
            &&& p.username@ == (if text_of(u.field("username"@)) is Some {
                text_of(u.field("username"@)).unwrap()
            } else {
                username@
            })
            &&& opt_chars(p.full_name) == nonempty_text(u.field("full_name"@))
            &&& p.followers_count == int_or_zero(sub_field(u.field("edge_followed_by"@), "count"@))
            &&& p.following_count == int_or_zero(sub_field(u.field("edge_follow"@), "count"@))
        },
{
    let user = match member(json.get("data"), "user") {
        Some(u) => u,
        None => {
            return Err(
                AppError::io(IoErrorKind::InvalidData, "profile response missing data.user"),
            );
        },
    };
    let id = match extract_id(user.get("id")) {
        Some(id) => id,
        None => match extract_id(user.get("pk")) {
            Some(id) => id,
            None => {
                return Err(
                    AppError::io(IoErrorKind::InvalidData, "profile response missing user id"),
                );
            },
        },
    };
    let name = match text_copy(user.get("username")) {
        Some(u) => u,
        None => username.to_string(),
    };
    let full_name = nonempty_text_copy(user.get("full_name"));
    Ok(
        OwnProfile {
            id,
            username: name,
            full_name,
            followers_count: int_or_zero_of(member(user.get("edge_followed_by"), "count")),
            following_count: int_or_zero_of(member(user.get("edge_follow"), "count")),
        },
    )
}

// ---------------------------------------------------------------------------
// Paging through a user list
// ---------------------------------------------------------------------------

/// The entries of a page's `users` array; none where it has none.
pub open spec fn page_users(json: Json) -> Seq<Json> {
    match json.field("users"@) {
        Some(Json::Array(a)) => a@,
        _ => seq![],
    }
}

/// The entries of `users` that make a row, in order.
pub open spec fn parsing_users(users: Seq<Json>) -> Seq<Json>
    decreases users.len(),
{
    if users.len() == 0 {
        seq![]
    } else {
        let earlier = parsing_users(users.drop_last());
        if user_parses(users.last()) {
            earlier.push(users.last())
        } else {
            earlier
        }
    }
}

proof fn lemma_parsing_users_prefix(users: Seq<Json>, i: int, j: int)
    requires
        0 <= i <= j <= users.len(),
    ensures
        parsing_users(users.take(i)).len() <= parsing_users(users.take(j)).len(),
        forall|k: int|
            0 <= k < parsing_users(users.take(i)).len() ==> #[trigger] parsing_users(users.take(i))[k]
                == parsing_users(users.take(j))[k],
    decreases j - i,
{
    if i < j {
        lemma_parsing_users_prefix(users, i, j - 1);
        assert(users.take(j).drop_last() =~= users.take(j - 1));
    }
}

/// The cursor of the next page: `next_max_id` where it is a non-empty string,
/// or a number that fits `i64` (in decimal); none where it is absent, null,
/// empty or anything else.
pub open spec fn next_cursor(json: Json) -> Option<Seq<char>> {
    match json.field("next_max_id"@) {
        None => None,
        Some(v) => if v is Null {
            None
        } else if v.text() is Some {
            if v.text().unwrap().len() == 0 {
                None
            } else {
                v.text()
            }
        } else if v.int64() is Some {
            Some(decimal_int(v.int64().unwrap() as int))
        } else {
            None
        },
    }
}

/// Reads the cursor of the next page.
pub fn cursor_of(json: &Json) -> (r: Option<String>)
    ensures
        opt_chars(r) == next_cursor(*json),
{
    match json.get("next_max_id") {
        None => None,
        Some(v) => {
            if v.is_null() {
                None
            } else if let Some(s) = v.as_str() {
                if s.as_str().is_empty() {
                    None
                } else {
                    Some(s.clone())
                }
            } else if let Some(n) = v.as_i64() {
                Some(i64_to_decimal(n))
            } else {
                None
            }
        },
    }
}

/// The query of a page request: the page size, and the cursor where there is
/// one.
pub open spec fn query_for(cursor: Option<Seq<char>>) -> Seq<(Seq<char>, Seq<char>)> {
    match cursor {
        Some(c) => seq![("count"@, PAGE_SIZE@), ("max_id"@, c)],
        None => seq![("count"@, PAGE_SIZE@)],
    }
}

/// The view of a list of (name, value) pairs.
pub open spec fn pairs_view(q: Seq<(String, String)>) -> Seq<(Seq<char>, Seq<char>)> {
    q.map_values(|p: (String, String)| (p.0@, p.1@))
}

/// One page to fetch: whether to pause [`PAGE_PAUSE_MILLIS`] first, and the
/// query to send.
#[derive(Debug)]
pub struct PageRequest {
    pub pause: bool,
    pub query: Vec<(String, String)>,
}

/// The progress of a listing of followers or followings: the rows collected,
/// the cursor of the next page, whether a page was asked for yet, and whether
/// the listing is over. It never holds more than [`MAX_USERS`] rows.
#[derive(Debug)]
pub struct FollowPager {
    rows: Vec<UserRow>,
    cursor: Option<String>,
    started: bool,
    finished: bool,
}

impl FollowPager {
    #[verifier::type_invariant]
    spec fn bounded(self) -> bool {
        self.rows@.len() <= MAX_USERS
    }

    /// The rows collected so far.
    pub closed spec fn collected(self) -> Seq<UserRow> {
        self.rows@
    }

    /// The cursor of the next page.
    pub closed spec fn cursor_view(self) -> Option<Seq<char>> {
        opt_chars(self.cursor)
    }

    /// Whether a page was asked for yet.
    pub closed spec fn started(self) -> bool {
        self.started
    }

    /// Whether the listing is over.
    pub closed spec fn finished(self) -> bool {
        self.finished
    }

    /// A listing that has not begun.
    pub fn new() -> (p: FollowPager)
        ensures
            p.collected().len() == 0,
            p.cursor_view() is None,
            !p.started(),
            !p.finished(),
    {
        FollowPager { rows: Vec::new(), cursor: None, started: false, finished: false }
    }

    /// The next page to fetch, or `None` once the listing is over: after a
    /// page without cursor, or with [`MAX_USERS`] rows collected. Every page
    /// but the first comes after a pause; the query carries the cursor where
    /// there is one.
    pub fn next_request(&mut self) -> (r: Option<PageRequest>)
        ensures
            final(self).collected() == old(self).collected(),
            final(self).cursor_view() == old(self).cursor_view(),
            final(self).collected().len() <= MAX_USERS,
            if old(self).finished() || old(self).collected().len() >= MAX_USERS {
                r is None && final(self).finished() && final(self).started() == old(self).started()
            } else {
                &&& r matches Some(req) && req.pause == old(self).started() && pairs_view(
                    req.query@,
                ) == query_for(old(self).cursor_view())
                &&& final(self).started()
                &&& !final(self).finished()
            },
    {
        proof {
            use_type_invariant(&*self);
        }
        if self.finished || self.rows.len() >= MAX_USERS {
            self.finished = true;
            return None;
        }
        let pause = self.started;
        self.started = true;
        let mut query: Vec<(String, String)> = Vec::new();
        query.push(("count".to_string(), PAGE_SIZE.to_string()));
        if let Some(c) = &self.cursor {
            query.push(("max_id".to_string(), c.clone()));
        }
        assert(pairs_view(query@) =~= query_for(self.cursor_view()));
        Some(PageRequest { pause, query })
    }

    /// Takes in a fetched page: its rows, in order, as long as fewer than
    /// [`MAX_USERS`] are collected, and its cursor; a page without cursor
    /// ends the listing. A finished listing takes in nothing.
    pub fn absorb(&mut self, json: &Json)
        ensures
            final(self).collected().len() <= MAX_USERS,
            final(self).started() == old(self).started(),
            old(self).finished() ==> {
                &&& final(self).collected() == old(self).collected()
                &&& final(self).cursor_view() == old(self).cursor_view()
                &&& final(self).finished()
            },
            !old(self).finished() ==> {
                let p = parsing_users(page_users(*json));
                let before = old(self).collected();
                let n = if p.len() <= MAX_USERS - before.len() {
                    p.len() as int
                } else {
                    MAX_USERS - before.len()
                };
                &&& final(self).collected().len() == before.len() + n
                &&& forall|k: int|
                    0 <= k < before.len() ==> #[trigger] final(self).collected()[k] == before[k]
                &&& forall|k: int|
                    0 <= k < n ==> row_of_user(p[k], #[trigger] final(self).collected()[before.len() + k])
                &&& final(self).cursor_view() == next_cursor(*json)
                &&& final(self).finished() == (next_cursor(*json) is None)
            },
    {
        proof {
            use_type_invariant(&*self);
        }
        if self.finished {
            return;
        }
        let ghost before = self.rows@;
        let mut rows: Vec<UserRow> = Vec::new();
        std::mem::swap(&mut rows, &mut self.rows);
        let users: Option<&Vec<Json>> = match json.get("users") {
            Some(v) => v.as_array(),
            None => None,
        };
        let ghost all: Seq<Json> = page_users(*json);
        let empty: Vec<Json> = Vec::new();
        let list: &Vec<Json> = match users {
            Some(a) => a,
            None => &empty,
        };
        assert(list@ == all);
        let mut i: usize = 0;
        assert(all.take(0) =~= Seq::<Json>::empty());
        while i < list.len() && rows.len() < MAX_USERS
            invariant
                i <= list.len(),
                list@ == all,
                before.len() <= rows@.len() <= MAX_USERS,
                rows@.len() - before.len() == parsing_users(all.take(i as int)).len(),
                forall|k: int| 0 <= k < before.len() ==> #[trigger] rows@[k] == before[k],
                forall|k: int|
                    0 <= k < rows@.len() - before.len() ==> row_of_user(
                        parsing_users(all.take(i as int))[k],
                        #[trigger] rows@[before.len() + k],
                    ),
            decreases list.len() - i,
        {
            proof {
                assert(all.take(i + 1).drop_last() =~= all.take(i as int));
                assert(all.take(i + 1).last() == all[i as int]);
            }
            if let Some(row) = parse_user(&list[i]) {
                rows.push(row);
            }
            i = i + 1;
        }
        proof {
            let p = parsing_users(all);
            assert(all.take(all.len() as int) =~= all);
            lemma_parsing_users_prefix(all, i as int, all.len() as int);
        }
        std::mem::swap(&mut rows, &mut self.rows);
        let next = cursor_of(json);
        self.finished = next.is_none();
        self.cursor = next;
    }

    /// The rows collected so far.
    pub fn rows(&self) -> (r: &Vec<UserRow>)
        ensures
            r@ == self.collected(),
    {
        &self.rows
    }

    /// The rows collected, as the listing's result.
    pub fn into_rows(self) -> (r: Vec<UserRow>)
        ensures
            r@ == self.collected(),
    {
        self.rows
    }
}

} // verus!
