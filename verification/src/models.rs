//! The records that flow between the Instagram client, the snapshot store and
//! the user interface.

use vstd::prelude::*;

verus! {

/// A point in time, as seconds and nanoseconds since the Unix epoch (UTC).
#[derive(Debug, Clone, Copy, PartialEq, Eq, Structural)]
pub struct UtcTime {
    pub secs: i64,
    pub nanos: u32,
}

/// One account as listed among the followers or the followings.
#[derive(Debug, Clone)]
pub struct UserRow {
    pub ig_user_id: String,
    pub username: String,
    pub full_name: Option<String>,
    pub is_verified: bool,
    pub profile_pic_url: Option<String>,
}

/// One stored sync: who it was taken for, when, and how many rows it holds.
#[derive(Debug, Clone)]
pub struct Snapshot {
    pub id: i64,
    pub taken_at: UtcTime,
    pub owner_user_id: String,
    pub owner_username: String,
    pub followers_count: i64,
    pub following_count: i64,
}

/// How an account relates to the owner of the snapshot.
#[derive(Debug, Clone, Copy, PartialEq, Eq, Structural)]
pub enum RelationshipStatus {
    Mutual,
    Fan,
    Ghosted,
    New,
    Lost,
}

pub open spec fn status_name(s: RelationshipStatus) -> Seq<char> {
    match s {
        RelationshipStatus::Mutual => "mutual"@,
        RelationshipStatus::Fan => "fan"@,
        RelationshipStatus::Ghosted => "ghost"@,
        RelationshipStatus::New => "new"@,
        RelationshipStatus::Lost => "lost"@,
    }
}

impl RelationshipStatus {
    /// The lower-case name of the status, as the user interface receives it.
    pub fn as_str(&self) -> (s: &'static str)
        ensures
            s@ == status_name(*self),
    {
        match self {
            RelationshipStatus::Mutual => "mutual",
            RelationshipStatus::Fan => "fan",
            RelationshipStatus::Ghosted => "ghost",
            RelationshipStatus::New => "new",
            RelationshipStatus::Lost => "lost",
        }
    }
}

/// One account of a snapshot together with the owner's relation to it.
#[derive(Debug, Clone)]
pub struct Relationship {
    pub ig_user_id: String,
    pub username: String,
    pub full_name: Option<String>,
    pub is_verified: bool,
    pub profile_pic_url: Option<String>,
    pub follows_you: bool,
    pub you_follow: bool,
    pub status: RelationshipStatus,
}

/// Followers gained and lost between two snapshots.
#[derive(Debug, Clone)]
pub struct DiffResult {
    pub since: Option<UtcTime>,
    pub new_followers: Vec<UserRow>,
    pub lost_followers: Vec<UserRow>,
}

/// What a sync reports back.
#[derive(Debug, Clone)]
pub struct SyncResult {
    pub new_followers: Vec<UserRow>,
    pub lost_followers: Vec<UserRow>,
    pub total_followers: i64,
    pub total_following: i64,
}

/// Whether a session is live, and what the latest snapshot says.
#[derive(Debug, Clone)]
pub struct SessionState {
    pub logged_in: bool,
    pub username: Option<String>,
    pub last_sync_at: Option<UtcTime>,
}

/// The owner's own profile.
#[derive(Debug, Clone)]
pub struct OwnProfile {
    pub id: String,
    pub username: String,
    pub full_name: Option<String>,
    pub followers_count: i64,
    pub following_count: i64,
}

} // verus!
