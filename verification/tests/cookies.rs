use friends_watcher::cookies::{
    instagram_cookie_pairs, is_instagram_domain, select, session_present, CookieMap,
    HarvestedCookies, JarCookie,
    IG_WEBVIEW_USER_AGENT,
};
use friends_watcher::error::AppError;
use friends_watcher::instagram::client_setup;

fn pair(name: &str, value: &str) -> (String, String) {
    (name.to_string(), value.to_string())
}

fn full_set() -> Vec<(String, String)> {
    vec![
        pair("sessionid", "SID"),
        pair("csrftoken", "CSRF"),
        pair("ds_user_id", "42"),
        pair("mid", "MID"),
        pair("ig_did", "DID"),
    ]
}

#[test]
fn select_returns_all_five_when_present() {
    let got = select(&full_set()).unwrap();
    assert_eq!(got.sessionid, "SID");
    assert_eq!(got.csrftoken, "CSRF");
    assert_eq!(got.ds_user_id, "42");
    assert_eq!(got.mid.as_deref(), Some("MID"));
    assert_eq!(got.ig_did.as_deref(), Some("DID"));
}

#[test]
fn select_ignores_unrelated_cookies() {
    let mut pairs = full_set();
    pairs.push(pair("rur", "IAD"));
    pairs.push(pair("datr", "abc"));
    let got = select(&pairs).unwrap();
    assert_eq!(got.sessionid, "SID");
}

#[test]
fn select_missing_sessionid_is_session_expired() {
    let pairs: Vec<_> = full_set().into_iter().filter(|(n, _)| n != "sessionid").collect();
    let err = select(&pairs).unwrap_err();
    assert!(matches!(err, AppError::SessionExpired));
}

#[test]
fn select_missing_csrftoken_is_session_expired() {
    let pairs: Vec<_> = full_set().into_iter().filter(|(n, _)| n != "csrftoken").collect();
    let err = select(&pairs).unwrap_err();
    assert!(matches!(err, AppError::SessionExpired));
}

#[test]
fn select_missing_ds_user_id_is_session_expired() {
    let pairs: Vec<_> = full_set().into_iter().filter(|(n, _)| n != "ds_user_id").collect();
    let err = select(&pairs).unwrap_err();
    assert!(matches!(err, AppError::SessionExpired));
}

#[test]
fn select_empty_sessionid_is_session_expired() {
    let mut pairs = full_set();
    for p in pairs.iter_mut() {
        if p.0 == "sessionid" {
            p.1.clear();
        }
    }
    let err = select(&pairs).unwrap_err();
    assert!(matches!(err, AppError::SessionExpired));
}

#[test]
fn select_missing_optional_mid_and_ig_did() {
    let pairs = vec![pair("sessionid", "SID"), pair("csrftoken", "CSRF"), pair("ds_user_id", "42")];
    let got = select(&pairs).unwrap();
    assert!(got.mid.is_none());
    assert!(got.ig_did.is_none());
}

#[test]
fn select_keeps_the_last_non_empty_value() {
    let mut pairs = full_set();
    pairs.push(pair("sessionid", "NEWER"));
    pairs.push(pair("sessionid", ""));
    pairs.push(pair("mid", ""));
    let got = select(&pairs).unwrap();
    assert_eq!(got.sessionid, "NEWER");
    assert_eq!(got.mid.as_deref(), Some("MID"));
}

#[test]
fn as_map_includes_optional_fields_only_when_set() {
    let with_opt = HarvestedCookies {
        sessionid: "s".into(),
        csrftoken: "c".into(),
        ds_user_id: "d".into(),
        mid: Some("m".into()),
        ig_did: Some("i".into()),
    };
    let m = with_opt.as_map();
    assert_eq!(m.len(), 5);
    assert_eq!(m.get("mid").map(String::as_str), Some("m"));

    let without_opt = HarvestedCookies {
        sessionid: "s".into(),
        csrftoken: "c".into(),
        ds_user_id: "d".into(),
        mid: None,
        ig_did: None,
    };
    let m = without_opt.as_map();
    assert_eq!(m.len(), 3);
    assert!(!m.contains_key("mid"));
    assert!(!m.contains_key("ig_did"));
}

#[test]
fn cookie_map_insert_replaces_earlier_value() {
    let mut m = CookieMap::new();
    m.insert("a".to_string(), "1".to_string());
    m.insert("b".to_string(), "2".to_string());
    m.insert("a".to_string(), "3".to_string());
    assert_eq!(m.len(), 2);
    assert_eq!(m.get("a").map(String::as_str), Some("3"));
    assert_eq!(m.get("b").map(String::as_str), Some("2"));
    assert!(m.get("c").is_none());
}

#[test]
fn harvested_cookies_map_is_accepted_by_ig_client() {
    let harvested = HarvestedCookies {
        sessionid: "SID".into(),
        csrftoken: "CSRF".into(),
        ds_user_id: "42".into(),
        mid: Some("MID".into()),
        ig_did: Some("DID".into()),
    };
    let client = client_setup(
        IG_WEBVIEW_USER_AGENT.to_string(),
        &harvested.as_map(),
        "https://www.instagram.com".to_string(),
    );
    assert!(client.is_ok());
}

#[test]
fn ig_webview_user_agent_is_a_safari_ua() {
    assert!(IG_WEBVIEW_USER_AGENT.contains("Safari"));
    assert!(IG_WEBVIEW_USER_AGENT.contains("Mac OS X"));
}

#[test]
fn instagram_domains_are_recognised_after_leading_dots() {
    assert!(is_instagram_domain(Some(".instagram.com")));
    assert!(is_instagram_domain(Some("..www.instagram.com")));
    assert!(is_instagram_domain(Some("instagram.com")));
    assert!(!is_instagram_domain(Some("instagram.com.evil")));
    assert!(!is_instagram_domain(Some("notinstagram.com")));
    assert!(!is_instagram_domain(Some(".notinstagram.com")));
    assert!(!is_instagram_domain(Some("facebook.com")));
    assert!(!is_instagram_domain(None));
}

#[test]
fn cookie_pairs_keep_only_instagram_cookies_in_order() {
    let jar = vec![
        JarCookie { name: "sessionid".into(), value: "S".into(), domain: Some(".instagram.com".into()) },
        JarCookie { name: "other".into(), value: "X".into(), domain: Some(".example.com".into()) },
        JarCookie { name: "nodomain".into(), value: "Y".into(), domain: None },
        JarCookie { name: "csrftoken".into(), value: "C".into(), domain: Some("www.instagram.com".into()) },
    ];
    let pairs = instagram_cookie_pairs(&jar);
    assert_eq!(pairs, vec![pair("sessionid", "S"), pair("csrftoken", "C")]);
    let got = select(&pairs);
    assert!(matches!(got, Err(AppError::SessionExpired)));
}

#[test]
fn logged_in_needs_only_a_non_empty_sessionid() {
    assert!(session_present(&[pair("sessionid", "S")]));
    assert!(!session_present(&[pair("sessionid", "")]));
    assert!(!session_present(&[pair("csrftoken", "C"), pair("ds_user_id", "1")]));
    assert!(session_present(&[pair("sessionid", "S"), pair("sessionid", "")]));
}

#[test]
fn select_gives_back_the_cookies_of_as_map() {
    let c = HarvestedCookies {
        sessionid: "s".into(),
        csrftoken: "c".into(),
        ds_user_id: "d".into(),
        mid: None,
        ig_did: Some("i".into()),
    };
    let mut pairs = c.as_map().pairs().clone();
    pairs.reverse();
    let back = select(&pairs).unwrap();
    assert_eq!(back.sessionid, "s");
    assert_eq!(back.csrftoken, "c");
    assert_eq!(back.ds_user_id, "d");
    assert_eq!(back.mid, None);
    assert_eq!(back.ig_did.as_deref(), Some("i"));
}
