use std::collections::HashMap;

use friends_watcher::commands::{profile_url, session_state, sync_result};
use friends_watcher::db::{
    diff_rows, empty_diff, parse_taken_at, relationships_from_rows, rows_missing, APP_DIR_NAME,
};
use friends_watcher::models::{RelationshipStatus, Snapshot, UserRow, UtcTime};

fn u(id: &str, name: &str) -> UserRow {
    UserRow {
        ig_user_id: id.to_string(),
        username: name.to_string(),
        full_name: Some(format!("Full {name}")),
        is_verified: false,
        profile_pic_url: Some(format!("https://ex/{name}.jpg")),
    }
}

fn bare(id: &str, name: &str) -> UserRow {
    UserRow {
        ig_user_id: id.to_string(),
        username: name.to_string(),
        full_name: None,
        is_verified: false,
        profile_pic_url: None,
    }
}

const NOW: UtcTime = UtcTime { secs: 1, nanos: 0 };

#[test]
fn diff_reports_new_and_lost_followers() {
    let prev_followers = vec![u("1", "alice"), u("2", "bob")];
    let cur_followers = vec![u("1", "alice"), u("3", "carol")];
    let since = parse_taken_at("2024-05-01 10:00:00", NOW);
    let diff = diff_rows(&cur_followers, &prev_followers, Some(since));
    let new_ids: Vec<_> = diff.new_followers.iter().map(|u| u.ig_user_id.as_str()).collect();
    let lost_ids: Vec<_> = diff.lost_followers.iter().map(|u| u.ig_user_id.as_str()).collect();
    assert_eq!(new_ids, vec!["3"]);
    assert_eq!(lost_ids, vec!["2"]);
    assert!(diff.since.is_some());
}

#[test]
fn diff_since_previous_reports_changes_across_two_snapshots() {
    let first = vec![bare("1", "alice"), bare("2", "bob")];
    let second = vec![bare("1", "alice"), bare("3", "carol")];
    let since = parse_taken_at("2024-05-01T10:00:00Z", NOW);
    let diff = diff_rows(&second, &first, Some(since));
    let new_ids: Vec<_> = diff.new_followers.iter().map(|u| u.ig_user_id.as_str()).collect();
    let lost_ids: Vec<_> = diff.lost_followers.iter().map(|u| u.ig_user_id.as_str()).collect();
    assert_eq!(new_ids, vec!["3"]);
    assert_eq!(lost_ids, vec!["2"]);
    assert!(diff.since.is_some());
}

#[test]
fn diff_of_a_snapshot_with_itself_is_empty() {
    let rows = vec![u("1", "alice"), u("2", "bob"), u("1", "alice again")];
    let diff = diff_rows(&rows, &rows, None);
    assert!(diff.new_followers.is_empty());
    assert!(diff.lost_followers.is_empty());
    let empty = empty_diff();
    assert!(empty.since.is_none() && empty.new_followers.is_empty() && empty.lost_followers.is_empty());
}

#[test]
fn rows_missing_keeps_order_and_full_rows() {
    let rows = vec![u("5", "e"), u("1", "a"), u("4", "d")];
    let other = vec![u("1", "zzz")];
    let missing = rows_missing(&rows, &other);
    assert_eq!(missing.len(), 2);
    assert_eq!(missing[0].ig_user_id, "5");
    assert_eq!(missing[0].full_name.as_deref(), Some("Full e"));
    assert_eq!(missing[1].ig_user_id, "4");
}

#[test]
fn relationships_classify_mutual_fan_ghost() {
    let followers = vec![u("1", "mutual"), u("2", "fan_only")];
    let following = vec![u("1", "mutual"), u("3", "ghost_only")];
    let rels = relationships_from_rows(&followers, &following);
    let by_id: HashMap<_, _> = rels.iter().map(|r| (r.ig_user_id.clone(), r)).collect();
    assert_eq!(by_id["1"].status, RelationshipStatus::Mutual);
    assert_eq!(by_id["2"].status, RelationshipStatus::Fan);
    assert_eq!(by_id["3"].status, RelationshipStatus::Ghosted);
    assert!(by_id["1"].follows_you && by_id["1"].you_follow);
    assert!(by_id["2"].follows_you && !by_id["2"].you_follow);
    assert!(!by_id["3"].follows_you && by_id["3"].you_follow);
}

#[test]
fn sync_then_latest_relationships_returns_merged_rows() {
    let followers = vec![bare("1", "alice"), bare("2", "bob")];
    let following = vec![bare("1", "alice"), bare("3", "carol")];
    let rels = relationships_from_rows(&followers, &following);
    let statuses: HashMap<_, _> = rels.iter().map(|r| (r.username.clone(), r.status)).collect();
    assert_eq!(statuses["alice"], RelationshipStatus::Mutual);
    assert_eq!(statuses["bob"], RelationshipStatus::Fan);
    assert_eq!(statuses["carol"], RelationshipStatus::Ghosted);
}

#[test]
fn relationships_are_sorted_case_insensitively_each_account_once() {
    let followers = vec![bare("9", "Bob"), bare("2", "carol"), bare("9", "Bobby"), bare("5", "ÉLAN")];
    let following = vec![bare("7", "alice"), bare("2", "Carol-old"), bare("1", "bob")];
    let rels = relationships_from_rows(&followers, &following);
    let names: Vec<_> = rels.iter().map(|r| r.username.as_str()).collect();
    // Id 9 takes its details from its last follower row; "bob" and "bobby"
    // follow one another, and "élan" comes after the ASCII letters.
    assert_eq!(names, vec!["alice", "bob", "Bobby", "carol", "ÉLAN"]);
    let ids: Vec<_> = rels.iter().map(|r| r.ig_user_id.as_str()).collect();
    assert_eq!(ids, vec!["7", "1", "9", "2", "5"]);
    assert_eq!(rels[3].status, RelationshipStatus::Mutual);
    assert_eq!(rels[3].username, "carol");
    assert!(rels.iter().all(|r| r.status != RelationshipStatus::New && r.status != RelationshipStatus::Lost));
}

#[test]
fn equal_lowercase_names_are_ordered_by_id() {
    let followers = vec![bare("b", "Sam"), bare("a", "sam")];
    let rels = relationships_from_rows(&followers, &Vec::new());
    let ids: Vec<_> = rels.iter().map(|r| r.ig_user_id.as_str()).collect();
    assert_eq!(ids, vec!["a", "b"]);
    assert!(relationships_from_rows(&Vec::new(), &Vec::new()).is_empty());
}

#[test]
fn parse_taken_at_reads_the_stored_formats() {
    let t = parse_taken_at("2024-05-01 10:00:00", NOW);
    assert_eq!(t, UtcTime { secs: 1714557600, nanos: 0 });
    let t = parse_taken_at("2024-05-01T10:00:00", NOW);
    assert_eq!(t, UtcTime { secs: 1714557600, nanos: 0 });
    let t = parse_taken_at("2024-05-01T12:00:00.5+02:00", NOW);
    assert_eq!(t, UtcTime { secs: 1714557600, nanos: 500_000_000 });
    let t = parse_taken_at("yesterday", NOW);
    assert_eq!(t, NOW);
}

#[test]
fn session_state_reports_latest_snapshot() {
    let snap = Snapshot {
        id: 3,
        taken_at: UtcTime { secs: 10, nanos: 0 },
        owner_user_id: "42".into(),
        owner_username: "me".into(),
        followers_count: 2,
        following_count: 1,
    };
    let s = session_state(true, Some(&snap));
    assert!(s.logged_in);
    assert_eq!(s.username.as_deref(), Some("me"));
    assert_eq!(s.last_sync_at, Some(UtcTime { secs: 10, nanos: 0 }));
    let s = session_state(false, None);
    assert!(!s.logged_in && s.username.is_none() && s.last_sync_at.is_none());
}

#[test]
fn sync_result_counts_and_diff() {
    let followers = vec![bare("1", "a"), bare("2", "b")];
    let following = vec![bare("3", "c")];
    let r = sync_result(&followers, &following, None);
    assert_eq!(r.total_followers, 2);
    assert_eq!(r.total_following, 1);
    assert!(r.new_followers.is_empty() && r.lost_followers.is_empty());
    let d = diff_rows(&followers, &following, None);
    let r = sync_result(&followers, &following, Some(d));
    assert_eq!(r.new_followers.len(), 2);
    assert_eq!(r.lost_followers.len(), 1);
}

#[test]
fn profile_url_and_app_dir() {
    assert_eq!(profile_url("alice"), "https://instagram.com/alice");
    assert_eq!(APP_DIR_NAME, "com.friendswatcher.app");
}
