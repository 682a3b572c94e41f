//! What the user interface's commands decide, apart from the calls they
//! make: the session state, the summary of a sync, and the profile link.

use vstd::prelude::*;
use vstd::string::*;

use crate::models::{DiffResult, Snapshot, SessionState, SyncResult, UserRow};
use crate::text::opt_chars;

verus! {

/// The session state: `logged_in` as the cookie jar tells, and the owner's
/// username and the time of the latest snapshot where there is one.
pub fn session_state(logged_in: bool, latest: Option<&Snapshot>) -> (r: SessionState)
    ensures
        r.logged_in == logged_in,
        match latest {
            Some(s) => opt_chars(r.username) == Some(s.owner_username@) && r.last_sync_at == Some(
                s.taken_at,
            ),
            None => r.username is None && r.last_sync_at is None,
        },
{
    match latest {
        Some(s) => SessionState {
            logged_in,
            username: Some(s.owner_username.clone()),
            last_sync_at: Some(s.taken_at),
        },
        None => SessionState { logged_in, username: None, last_sync_at: None },
    }
}

/// The report of a sync: the totals of the lists fetched, and the followers
/// gained and lost against the previous snapshot where there is one.
pub fn sync_result(followers: &Vec<UserRow>, following: &Vec<UserRow>, diff: Option<DiffResult>) -> (r:
    SyncResult)
    requires
        followers@.len() <= i64::MAX,
        following@.len() <= i64::MAX,
    ensures
        r.total_followers == followers@.len(),
        r.total_following == following@.len(),
        match diff {
            Some(d) => r.new_followers@ == d.new_followers@ && r.lost_followers@
                == d.lost_followers@,
            None => r.new_followers@.len() == 0 && r.lost_followers@.len() == 0,
        },
{
    let total_followers = followers.len() as i64;
    let total_following = following.len() as i64;
    match diff {
        Some(d) => SyncResult {
            new_followers: d.new_followers,
            lost_followers: d.lost_followers,
            total_followers,
            total_following,
        },
        None => SyncResult {
            new_followers: Vec::new(),
            lost_followers: Vec::new(),
            total_followers,
            total_following,
        },
    }
}

/// The link to `username`'s profile.
pub fn profile_url(username: &str) -> (u: String)
    ensures
        u@ == "https://instagram.com/"@ + username@,
{
    "https://instagram.com/".to_string().concat(username)
}

} // verus!
