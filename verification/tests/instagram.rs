use friends_watcher::cookies::CookieMap;
use friends_watcher::error::{AppError, IoErrorKind};
use friends_watcher::instagram::{
    backoff_secs, client_setup, cursor_of, extract_id, followers_path, following_path,
    judge_response, parse_profile_by_id, parse_user, parse_web_profile, request_url,
    user_info_path, FollowPager, ResponseStep, MAX_USERS,
};
use friends_watcher::json::{parse_json, Json};

fn json(text: &str) -> Json {
    parse_json(text).unwrap()
}

fn good_cookies() -> CookieMap {
    let mut c = CookieMap::new();
    c.insert("csrftoken".into(), "tok".into());
    c.insert("sessionid".into(), "sess".into());
    c.insert("ds_user_id".into(), "123".into());
    c.insert("mid".into(), "m".into());
    c.insert("ig_did".into(), "d".into());
    c
}

fn base() -> String {
    "https://www.instagram.com".to_string()
}

#[test]
fn parse_user_handles_string_pk() {
    let v = json(
        r#"{
            "pk": "12345",
            "username": "alice",
            "full_name": "Alice A.",
            "is_verified": false,
            "is_private": true,
            "profile_pic_url": "https://example.test/alice.jpg"
        }"#,
    );
    let row = parse_user(&v).unwrap();
    assert_eq!(row.ig_user_id, "12345");
    assert_eq!(row.username, "alice");
    assert_eq!(row.full_name.as_deref(), Some("Alice A."));
    assert_eq!(row.profile_pic_url.as_deref(), Some("https://example.test/alice.jpg"));
    assert!(!row.is_verified);
}

#[test]
fn parse_user_handles_integer_pk() {
    let v = json(r#"{ "pk": 98765, "username": "bob" }"#);
    let row = parse_user(&v).unwrap();
    assert_eq!(row.ig_user_id, "98765");
    assert_eq!(row.username, "bob");
    assert!(row.full_name.is_none());
    assert!(row.profile_pic_url.is_none());
}

#[test]
fn parse_user_skips_missing_username() {
    let v = json(r#"{ "pk": "1" }"#);
    assert!(parse_user(&v).is_none());
}

#[test]
fn parse_user_skips_missing_pk() {
    let v = json(r#"{ "username": "x" }"#);
    assert!(parse_user(&v).is_none());
}

#[test]
fn parse_user_treats_empty_full_name_as_none() {
    let v = json(r#"{ "pk": "1", "username": "x", "full_name": "" }"#);
    let row = parse_user(&v).unwrap();
    assert!(row.full_name.is_none());
}

#[test]
fn parse_user_falls_back_to_id_and_reads_verified_flag() {
    let v = json(r#"{ "pk": "", "id": -7, "username": "", "is_verified": true }"#);
    let row = parse_user(&v).unwrap();
    assert_eq!(row.ig_user_id, "-7");
    assert_eq!(row.username, "");
    assert!(row.is_verified);
    let v = json(r#"{ "pk": 1.5, "username": "x" }"#);
    assert!(parse_user(&v).is_none());
    assert!(parse_user(&json("[1, 2]")).is_none());
}

#[test]
fn ig_client_rejects_missing_sessionid() {
    let mut cookies = CookieMap::new();
    cookies.insert("csrftoken".to_string(), "tok".to_string());
    let err = client_setup("Mozilla/5.0".to_string(), &cookies, base()).unwrap_err();
    assert!(matches!(err, AppError::SessionExpired));
}

#[test]
fn ig_client_rejects_empty_sessionid() {
    let mut cookies = good_cookies();
    cookies.insert("sessionid".to_string(), String::new());
    let err = client_setup("Mozilla/5.0".to_string(), &cookies, base()).unwrap_err();
    assert!(matches!(err, AppError::SessionExpired));
}

#[test]
fn ig_client_rejects_missing_csrftoken() {
    let mut cookies = CookieMap::new();
    cookies.insert("sessionid".to_string(), "sess".to_string());
    let err = client_setup("Mozilla/5.0".to_string(), &cookies, base()).unwrap_err();
    assert!(matches!(err, AppError::SessionExpired));
}

#[test]
fn ig_client_builds_with_valid_cookies() {
    let client = client_setup("Mozilla/5.0".to_string(), &good_cookies(), base());
    assert!(client.is_ok());
}

#[test]
fn client_setup_seeds_cookies_in_order_and_checks_headers() {
    let setup = client_setup("Mozilla/5.0".to_string(), &good_cookies(), base()).unwrap();
    assert_eq!(setup.csrftoken, "tok");
    assert_eq!(setup.user_agent, "Mozilla/5.0");
    assert_eq!(
        setup.cookie_lines,
        vec![
            "sessionid=sess; Domain=.instagram.com; Path=/".to_string(),
            "csrftoken=tok; Domain=.instagram.com; Path=/".to_string(),
            "ds_user_id=123; Domain=.instagram.com; Path=/".to_string(),
            "mid=m; Domain=.instagram.com; Path=/".to_string(),
            "ig_did=d; Domain=.instagram.com; Path=/".to_string(),
        ]
    );
    let mut bad = good_cookies();
    bad.insert("csrftoken".to_string(), "to\nk".to_string());
    match client_setup("Mozilla/5.0".to_string(), &bad, base()) {
        Err(AppError::Io(f)) => {
            assert_eq!(f.kind, IoErrorKind::InvalidData);
            assert_eq!(f.message, "csrftoken is not a valid header value");
        }
        _ => panic!("a newline is no header value"),
    }
    match client_setup("Mozilla\u{7f}".to_string(), &good_cookies(), base()) {
        Err(AppError::Io(f)) => assert_eq!(f.message, "user agent is not a valid header value"),
        _ => panic!("DEL is no header value"),
    }
    assert!(client_setup("Mozilla\t5.0 é".to_string(), &good_cookies(), base()).is_ok());
}

#[test]
fn parse_profile_by_id_extracts_username_and_counts() {
    let v = json(
        r#"{
            "user": {
                "pk": "42",
                "username": "me",
                "full_name": "Me Myself",
                "follower_count": 123,
                "following_count": 45
            }
        }"#,
    );
    let p = parse_profile_by_id(&v, "42").unwrap();
    assert_eq!(p.id, "42");
    assert_eq!(p.username, "me");
    assert_eq!(p.full_name.as_deref(), Some("Me Myself"));
    assert_eq!(p.followers_count, 123);
    assert_eq!(p.following_count, 45);
}

#[test]
fn parse_profile_by_id_falls_back_to_edge_counts() {
    let v = json(
        r#"{
            "user": {
                "pk": 42,
                "username": "me",
                "edge_followed_by": { "count": 9 },
                "edge_follow": { "count": 3 }
            }
        }"#,
    );
    let p = parse_profile_by_id(&v, "42").unwrap();
    assert_eq!(p.followers_count, 9);
    assert_eq!(p.following_count, 3);
    assert!(p.full_name.is_none());
}

#[test]
fn parse_profile_by_id_uses_fallback_id_when_pk_missing() {
    let v = json(r#"{ "user": { "username": "me" } }"#);
    let p = parse_profile_by_id(&v, "99").unwrap();
    assert_eq!(p.id, "99");
}

#[test]
fn parse_profile_by_id_errors_when_username_missing() {
    let v = json(r#"{ "user": { "pk": "42" } }"#);
    let err = parse_profile_by_id(&v, "42").unwrap_err();
    assert!(matches!(err, AppError::Io(_)));
}

#[test]
fn parse_profile_by_id_errors_when_user_missing() {
    let v = json(r#"{ "something": {} }"#);
    let err = parse_profile_by_id(&v, "42").unwrap_err();
    assert!(matches!(err, AppError::Io(_)));
}

#[test]
fn parse_profile_by_id_present_count_that_is_no_integer_is_zero() {
    let v = json(
        r#"{ "user": { "username": "me", "follower_count": null,
             "edge_followed_by": { "count": 9 }, "following_count": "7" } }"#,
    );
    let p = parse_profile_by_id(&v, "1").unwrap();
    assert_eq!(p.followers_count, 0);
    assert_eq!(p.following_count, 0);
}

#[test]
fn parse_web_profile_reads_data_user() {
    let v = json(
        r#"{ "data": { "user": { "id": "77", "pk": "78", "full_name": "",
             "edge_followed_by": { "count": 5 }, "edge_follow": { "count": 6 } } } }"#,
    );
    let p = parse_web_profile(&v, "asked").unwrap();
    assert_eq!(p.id, "77");
    assert_eq!(p.username, "asked");
    assert!(p.full_name.is_none());
    assert_eq!(p.followers_count, 5);
    assert_eq!(p.following_count, 6);
    match parse_web_profile(&json(r#"{ "data": {} }"#), "x") {
        Err(AppError::Io(f)) => assert_eq!(f.message, "profile response missing data.user"),
        _ => panic!("missing user"),
    }
    match parse_web_profile(&json(r#"{ "data": { "user": { "id": null } } }"#), "x") {
        Err(AppError::Io(f)) => assert_eq!(f.message, "profile response missing user id"),
        _ => panic!("missing id"),
    }
}

#[test]
fn extract_id_prefers_string_then_numeric() {
    assert_eq!(extract_id(Some(&json("\"abc\""))), Some("abc".to_string()));
    assert_eq!(extract_id(Some(&json("42"))), Some("42".to_string()));
    assert_eq!(extract_id(Some(&json("null"))), None);
    assert_eq!(extract_id(Some(&json("\"\""))), None);
    assert_eq!(extract_id(None), None);
}

#[test]
fn extract_id_writes_extreme_numbers_in_decimal() {
    assert_eq!(extract_id(Some(&json("-9223372036854775808"))), Some("-9223372036854775808".to_string()));
    assert_eq!(extract_id(Some(&json("18446744073709551615"))), Some("18446744073709551615".to_string()));
    assert_eq!(extract_id(Some(&json("0"))), Some("0".to_string()));
    assert_eq!(extract_id(Some(&json("true"))), None);
}

#[test]
fn paths_and_urls() {
    assert_eq!(user_info_path("42"), "/api/v1/users/42/info/");
    assert_eq!(followers_path("42"), "/api/v1/friendships/42/followers/");
    assert_eq!(following_path("42"), "/api/v1/friendships/42/following/");
    assert_eq!(request_url("https://x.test", "/a"), "https://x.test/a");
}

#[test]
fn judge_response_session_expiry_wins() {
    assert!(matches!(judge_response(401, "{}", 0), Err(AppError::SessionExpired)));
    assert!(matches!(
        judge_response(429, "{\"message\":\"login_required\"}", 0),
        Err(AppError::SessionExpired)
    ));
}

#[test]
fn judge_response_retries_rate_limits_then_gives_up() {
    match judge_response(429, "", 0) {
        Ok(ResponseStep::Retry { wait_secs, next_attempt }) => {
            assert_eq!(wait_secs, 5);
            assert_eq!(next_attempt, 1);
        }
        _ => panic!("first rate limit is retried"),
    }
    match judge_response(200, "{\"status\":\"feedback_required\"}", 1) {
        Ok(ResponseStep::Retry { wait_secs, .. }) => assert_eq!(wait_secs, 15),
        _ => panic!("feedback_required is a rate limit"),
    }
    match judge_response(200, "\"checkpoint_required\"", 2) {
        Ok(ResponseStep::Retry { wait_secs, next_attempt }) => {
            assert_eq!(wait_secs, 45);
            assert_eq!(next_attempt, 3);
        }
        _ => panic!("checkpoint_required is a rate limit"),
    }
    assert!(matches!(judge_response(429, "", 3), Err(AppError::RateLimited)));
    assert_eq!(backoff_secs(0) + backoff_secs(1) + backoff_secs(2), 65);
}

#[test]
fn judge_response_reports_other_statuses_and_bad_bodies() {
    match judge_response(500, "oops", 0) {
        Err(AppError::Io(f)) => {
            assert_eq!(f.kind, IoErrorKind::Other);
            assert_eq!(f.message, "instagram returned HTTP 500");
        }
        _ => panic!("500 is an error"),
    }
    match judge_response(200, "not-json", 0) {
        Err(e @ AppError::Decode(_)) => {
            assert_eq!(e.kind(), "decode");
            assert!(e.message().starts_with("decode error: "));
        }
        _ => panic!("bad JSON is a decode error"),
    }
    match judge_response(200, "{\"users\": []}", 0) {
        Ok(ResponseStep::Body(b)) => assert!(b.get("users").and_then(|u| u.as_array()).is_some()),
        _ => panic!("JSON body decodes"),
    }
}

#[test]
fn cursor_reads_strings_and_integers_only() {
    assert_eq!(cursor_of(&json(r#"{"next_max_id": "abc"}"#)), Some("abc".to_string()));
    assert_eq!(cursor_of(&json(r#"{"next_max_id": 25}"#)), Some("25".to_string()));
    assert_eq!(cursor_of(&json(r#"{"next_max_id": ""}"#)), None);
    assert_eq!(cursor_of(&json(r#"{"next_max_id": null}"#)), None);
    assert_eq!(cursor_of(&json(r#"{"next_max_id": 2.5}"#)), None);
    assert_eq!(cursor_of(&json(r#"{}"#)), None);
}

#[test]
fn pager_follows_cursor_and_pauses_between_pages() {
    let mut pager = FollowPager::new();
    let first = pager.next_request().unwrap();
    assert!(!first.pause);
    assert_eq!(first.query, vec![("count".to_string(), "50".to_string())]);
    pager.absorb(&json(
        r#"{"users": [{"pk": 1, "username": "a"}, {"username": "no id"}, {"pk": "2", "username": "b"}],
            "next_max_id": "c1"}"#,
    ));
    let second = pager.next_request().unwrap();
    assert!(second.pause);
    assert_eq!(
        second.query,
        vec![("count".to_string(), "50".to_string()), ("max_id".to_string(), "c1".to_string())]
    );
    pager.absorb(&json(r#"{"users": [{"pk": 3, "username": "c"}], "next_max_id": null}"#));
    assert!(pager.next_request().is_none());
    let ids: Vec<String> = pager.into_rows().into_iter().map(|r| r.ig_user_id).collect();
    assert_eq!(ids, vec!["1", "2", "3"]);
}

#[test]
fn pager_stops_at_the_user_cap() {
    let mut pager = FollowPager::new();
    let mut page = String::from("{\"users\": [");
    for i in 0..300 {
        if i > 0 {
            page.push(',');
        }
        page.push_str(&format!("{{\"pk\": {}, \"username\": \"u{}\"}}", i, i));
    }
    page.push_str("], \"next_max_id\": \"more\"}");
    let page = json(&page);
    let mut pages = 0;
    while let Some(_request) = pager.next_request() {
        pager.absorb(&page);
        pages += 1;
        assert!(pager.rows().len() <= MAX_USERS);
    }
    assert_eq!(pages, 67);
    assert_eq!(pager.rows().len(), MAX_USERS);
}

#[test]
fn session_headers_are_fixed_and_carry_token_and_agent() {
    let setup = client_setup("UA/1".to_string(), &good_cookies(), base()).unwrap();
    let expected: Vec<(String, String)> = [
        ("accept", "*/*"),
        ("referer", "https://www.instagram.com/"),
        ("x-ig-app-id", "936619743392459"),
        ("x-asbd-id", "198387"),
        ("x-requested-with", "XMLHttpRequest"),
        ("x-csrftoken", "tok"),
        ("user-agent", "UA/1"),
    ]
    .iter()
    .map(|(n, v)| (n.to_string(), v.to_string()))
    .collect();
    assert_eq!(setup.headers(), expected);
}
