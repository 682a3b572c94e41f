use friends_watcher::avatars::validate_ig_user_id;
use friends_watcher::db::{diff_rows, relationships_from_rows};
use friends_watcher::instagram::extract_id;
use friends_watcher::json::parse_json;
use friends_watcher::models::UserRow;

fn bare(id: &str, name: &str) -> UserRow {
    UserRow {
        ig_user_id: id.to_string(),
        username: name.to_string(),
        full_name: None,
        is_verified: false,
        profile_pic_url: None,
    }
}

#[test]
fn numeric_ids_from_the_api_are_valid_cache_names() {
    for text in ["0", "7", "18446744073709551615", "9223372036854775807"] {
        let id = extract_id(Some(&parse_json(text).unwrap())).unwrap();
        assert!(validate_ig_user_id(&id).is_ok(), "{id}");
    }
    let negative = extract_id(Some(&parse_json("-1").unwrap())).unwrap();
    assert!(validate_ig_user_id(&negative).is_err());
}

#[test]
fn diff_agrees_with_relationships() {
    let previous = vec![bare("1", "a"), bare("2", "b")];
    let current = vec![bare("1", "a"), bare("3", "c")];
    let following = vec![bare("2", "b"), bare("4", "d")];
    let diff = diff_rows(&current, &previous, None);
    let rels = relationships_from_rows(&current, &following);
    for new in &diff.new_followers {
        let r = rels.iter().find(|r| r.ig_user_id == new.ig_user_id).unwrap();
        assert!(r.follows_you);
    }
    for lost in &diff.lost_followers {
        if let Some(r) = rels.iter().find(|r| r.ig_user_id == lost.ig_user_id) {
            assert!(!r.follows_you);
        }
    }
    assert_eq!(diff.lost_followers.len(), 1);
    assert_eq!(diff.new_followers.len(), 1);
}
