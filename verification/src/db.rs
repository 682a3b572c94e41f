//! What the snapshot store computes from the rows it holds: the followers
//! gained and lost between two snapshots, the merged relationship list of one
//! snapshot, and the reading of stored timestamps.

use vstd::prelude::*;
use vstd::string::*;

use crate::models::{DiffResult, Relationship, RelationshipStatus, UserRow, UtcTime};
use crate::text::{
    chars_equal, chars_less, chars_lt, chars_of, lemma_chars_lt_asymmetric,
    lemma_chars_lt_irreflexive, lemma_chars_lt_total, lemma_chars_lt_transitive, lowercase,
    to_lowercase,
};

verus! {

/// Name of the application's directory under the platform data directory.
pub const APP_DIR_NAME: &'static str = "com.friendswatcher.app";

/// Name of the database file inside [`APP_DIR_NAME`].
pub const DB_FILE_NAME: &'static str = "data.db";

// ---------------------------------------------------------------------------
// Rows and ids
// ---------------------------------------------------------------------------

/// Whether some row of `rows` has the id `id`.
pub open spec fn lists_id(rows: Seq<UserRow>, id: Seq<char>) -> bool {
    exists|k: int| 0 <= k < rows.len() && (#[trigger] rows[k]).ig_user_id@ == id
}

/// The last row of `rows` with the id `id`: the one a map keyed by id keeps
/// when it is filled from `rows` in order.
pub open spec fn last_with_id(rows: Seq<UserRow>, id: Seq<char>) -> Option<UserRow>
    decreases rows.len(),
{
    if rows.len() == 0 {
        None
    } else if rows.last().ig_user_id@ == id {
        Some(rows.last())
    } else {
        last_with_id(rows.drop_last(), id)
    }
}

/// The row found by [`last_with_id`] carries the id looked for, and some row
/// carries it exactly when one is found.
pub proof fn lemma_last_with_id(rows: Seq<UserRow>, id: Seq<char>)
    ensures
        last_with_id(rows, id) is Some <==> lists_id(rows, id),
        last_with_id(rows, id) matches Some(r) ==> r.ig_user_id@ == id,
    decreases rows.len(),
{
    if rows.len() > 0 {
        lemma_last_with_id(rows.drop_last(), id);
        if lists_id(rows, id) && rows.last().ig_user_id@ != id {
            let k = choose|k: int| 0 <= k < rows.len() && (#[trigger] rows[k]).ig_user_id@ == id;
            assert(rows.drop_last()[k] == rows[k]);
        }
        if lists_id(rows.drop_last(), id) {
            let k = choose|k: int|
                0 <= k < rows.drop_last().len() && (#[trigger] rows.drop_last()[k]).ig_user_id@
                    == id;
            assert(rows[k] == rows.drop_last()[k]);
        }
    }
}

proof fn lemma_last_with_id_step(rows: Seq<UserRow>, id: Seq<char>, i: int)
    requires
        0 <= i < rows.len(),
    ensures
        last_with_id(rows.take(i + 1), id) == (if rows[i].ig_user_id@ == id {
            Some(rows[i])
        } else {
            last_with_id(rows.take(i), id)
        }),
{
    assert(rows.take(i + 1).drop_last() =~= rows.take(i));
}

proof fn lemma_lists_id_step(rows: Seq<UserRow>, id: Seq<char>, i: int)
    requires
        0 <= i < rows.len(),
    ensures
        lists_id(rows.take(i + 1), id) == (rows[i].ig_user_id@ == id || lists_id(rows.take(i), id)),
{
    if lists_id(rows.take(i + 1), id) && rows[i].ig_user_id@ != id {
        let k = choose|k: int|
            0 <= k < rows.take(i + 1).len() && (#[trigger] rows.take(i + 1)[k]).ig_user_id@ == id;
        assert(rows.take(i)[k] == rows[k]);
    }
    if lists_id(rows.take(i), id) {
        let k = choose|k: int|
            0 <= k < rows.take(i).len() && (#[trigger] rows.take(i)[k]).ig_user_id@ == id;
        assert(rows.take(i + 1)[k] == rows[k]);
    }
    if rows[i].ig_user_id@ == id {
        assert(rows.take(i + 1)[i] == rows[i]);
    }
}

/// An exact copy of `s`.
fn copy_text(s: &Option<String>) -> (r: Option<String>)
    ensures
        r == *s,
{
    match s {
        Some(v) => Some(v.clone()),
        None => None,
    }
}

impl UserRow {
    /// A field-by-field copy of the row.
    pub fn copied(&self) -> (r: UserRow)
        ensures
            r == *self,
    {
        UserRow {
            ig_user_id: self.ig_user_id.clone(),
            username: self.username.clone(),
            full_name: copy_text(&self.full_name),
            is_verified: self.is_verified,
            profile_pic_url: copy_text(&self.profile_pic_url),
        }
    }
}

/// Whether some row of `rows` has the same id as `id`.
pub fn rows_list_id(rows: &Vec<UserRow>, id: &String) -> (r: bool)
    ensures
        r == lists_id(rows@, id@),
{
    let mut i: usize = 0;
    while i < rows.len()
        invariant
            i <= rows.len(),
            forall|k: int| 0 <= k < i ==> (#[trigger] rows@[k]).ig_user_id@ != id@,
        decreases rows.len() - i,
    {
        if rows[i].ig_user_id == *id {
            return true;
        }
        i = i + 1;
    }
    false
}

/// The index of the last row of `rows` whose id is `id`.
fn last_index_with_id(rows: &Vec<UserRow>, id: &String) -> (r: Option<usize>)
    ensures
        match r {
            Some(k) => k < rows.len() && last_with_id(rows@, id@) == Some(rows@[k as int]),
            None => last_with_id(rows@, id@) is None,
        },
{
    let mut found: Option<usize> = None;
    let mut i: usize = 0;
    while i < rows.len()
        invariant
            i <= rows.len(),
            match found {
                Some(k) => k < i && last_with_id(rows@.take(i as int), id@) == Some(
                    rows@[k as int],
                ),
                None => last_with_id(rows@.take(i as int), id@) is None,
            },
        decreases rows.len() - i,
    {
        proof {
            lemma_last_with_id_step(rows@, id@, i as int);
        }
        if rows[i].ig_user_id == *id {
            found = Some(i);
        }
        i = i + 1;
    }
    assert(rows@.take(rows.len() as int) =~= rows@);
    found
}

// ---------------------------------------------------------------------------
// Diff between two snapshots
// ---------------------------------------------------------------------------

/// The rows of `rows`, in order, whose id no row of `other` has.
pub open spec fn rows_missing_from(rows: Seq<UserRow>, other: Seq<UserRow>) -> Seq<UserRow>
    decreases rows.len(),
{
    if rows.len() == 0 {
        seq![]
    } else {
        let earlier = rows_missing_from(rows.drop_last(), other);
        if lists_id(other, rows.last().ig_user_id@) {
            earlier
        } else {
            earlier.push(rows.last())
        }
    }
}

/// The rows of `rows`, in order, whose id does not occur among `other`.
pub fn rows_missing(rows: &Vec<UserRow>, other: &Vec<UserRow>) -> (r: Vec<UserRow>)
    ensures
        r@ == rows_missing_from(rows@, other@),
{
    let mut out: Vec<UserRow> = Vec::new();
    let mut i: usize = 0;
    while i < rows.len()
        invariant
            i <= rows.len(),
            out@ == rows_missing_from(rows@.take(i as int), other@),
        decreases rows.len() - i,
    {
        proof {
            assert(rows@.take(i + 1).drop_last() =~= rows@.take(i as int));
            assert(rows@.take(i + 1).last() == rows@[i as int]);
        }
        if !rows_list_id(other, &rows[i].ig_user_id) {
            out.push(rows[i].copied());
        }
        i = i + 1;
    }
    assert(rows@.take(rows.len() as int) =~= rows@);
    out
}

/// The followers gained and lost from the `previous` snapshot's followers to
/// the `current` one's, matched by id; `since` is when the previous snapshot
/// was taken, where it is known.
pub fn diff_rows(current: &Vec<UserRow>, previous: &Vec<UserRow>, since: Option<UtcTime>) -> (r:
    DiffResult)
    ensures
        r.since == since,
        r.new_followers@ == rows_missing_from(current@, previous@),
        r.lost_followers@ == rows_missing_from(previous@, current@),
{
    DiffResult {
        since,
        new_followers: rows_missing(current, previous),
        lost_followers: rows_missing(previous, current),
    }
}

/// A diff that reports nothing: what is shown before two snapshots exist.
pub fn empty_diff() -> (r: DiffResult)
    ensures
        r.since is None,
        r.new_followers@.len() == 0,
        r.lost_followers@.len() == 0,
{
    DiffResult { since: None, new_followers: Vec::new(), lost_followers: Vec::new() }
}

/// Each row missing from the other list is a row of the first list whose id
/// the other list lacks, and every such row is reported.
pub proof fn lemma_rows_missing_from(rows: Seq<UserRow>, other: Seq<UserRow>)
    ensures
        forall|j: int|
            0 <= j < rows_missing_from(rows, other).len() ==> {
                &&& rows.contains(#[trigger] rows_missing_from(rows, other)[j])
                &&& !lists_id(other, rows_missing_from(rows, other)[j].ig_user_id@)
            },
        forall|k: int|
            0 <= k < rows.len() && !lists_id(other, (#[trigger] rows[k]).ig_user_id@)
                ==> rows_missing_from(rows, other).contains(rows[k]),
    decreases rows.len(),
{
    if rows.len() > 0 {
        let earlier = rows.drop_last();
        lemma_rows_missing_from(earlier, other);
        let m = rows_missing_from(rows, other);
        let me = rows_missing_from(earlier, other);
        assert forall|j: int| 0 <= j < m.len() implies rows.contains(#[trigger] m[j]) && !lists_id(
            other,
            m[j].ig_user_id@,
        ) by {
            if j < me.len() {
                assert(m[j] == me[j]);
                let k = choose|k: int| 0 <= k < earlier.len() && earlier[k] == me[j];
                assert(rows[k] == earlier[k]);
            } else {
                assert(m[j] == rows.last());
                assert(rows[rows.len() - 1] == rows.last());
            }
        }
        assert forall|k: int|
            0 <= k < rows.len() && !lists_id(other, (#[trigger] rows[k]).ig_user_id@) implies m.contains(
            rows[k],
        ) by {
            if k < rows.len() - 1 {
                assert(earlier[k] == rows[k]);
                let j = choose|j: int| 0 <= j < me.len() && me[j] == earlier[k];
                assert(m[j] == me[j]);
            } else {
                assert(m[m.len() - 1] == rows[k]);
            }
        }
    }
}

/// A snapshot compared with itself gains and loses no follower.
pub proof fn lemma_diff_with_itself_is_empty(rows: Seq<UserRow>)
    ensures
        rows_missing_from(rows, rows).len() == 0,
{
    lemma_rows_missing_from(rows, rows);
    let m = rows_missing_from(rows, rows);
    if m.len() > 0 {
        let k = choose|k: int| 0 <= k < rows.len() && rows[k] == m[0];
        assert(lists_id(rows, m[0].ig_user_id@));
    }
}

// ---------------------------------------------------------------------------
// Relationships of one snapshot
// ---------------------------------------------------------------------------

/// The status of an account that does (`follows_you`) or does not follow the
/// owner, and that the owner does (`you_follow`) or does not follow.
pub open spec fn status_for(follows_you: bool, you_follow: bool) -> RelationshipStatus {
    if follows_you && you_follow {
        RelationshipStatus::Mutual
    } else if follows_you {
        RelationshipStatus::Fan
    } else {
        RelationshipStatus::Ghosted
    }
}

/// The relationship entry for the account `id`, built from the last follower
/// row with that id or, failing that, the last following row with it; `None`
/// when neither list holds the id.
pub open spec fn relationship_for(
    followers: Seq<UserRow>,
    following: Seq<UserRow>,
    id: Seq<char>,
) -> Option<Relationship> {
    let in_followers = last_with_id(followers, id);
    let in_following = last_with_id(following, id);
    let source = if in_followers is Some {
        in_followers
    } else {
        in_following
    };
    match source {
        None => None,
        Some(row) => Some(
            Relationship {
                ig_user_id: row.ig_user_id,
                username: row.username,
                full_name: row.full_name,
                is_verified: row.is_verified,
                profile_pic_url: row.profile_pic_url,
                follows_you: in_followers is Some,
                you_follow: in_following is Some,
                status: status_for(in_followers is Some, in_following is Some),
            },
        ),
    }
}

/// Order on (lower-cased username, id) pairs: by name, then by id.
pub open spec fn key_lt(n1: Seq<char>, i1: Seq<char>, n2: Seq<char>, i2: Seq<char>) -> bool {
    chars_lt(n1, n2) || (n1 == n2 && chars_lt(i1, i2))
}

/// The order in which relationships are listed: by lower-cased username, and
/// among equal lower-cased usernames by id.
pub open spec fn listed_before(a: Relationship, b: Relationship) -> bool {
    key_lt(lowercase(a.username@), a.ig_user_id@, lowercase(b.username@), b.ig_user_id@)
}

proof fn lemma_key_lt_asymmetric(n1: Seq<char>, i1: Seq<char>, n2: Seq<char>, i2: Seq<char>)
    requires
        key_lt(n1, i1, n2, i2),
    ensures
        !key_lt(n2, i2, n1, i1),
{
    if chars_lt(n1, n2) {
        lemma_chars_lt_asymmetric(n1, n2);
        if n1 == n2 {
            lemma_chars_lt_irreflexive(n1);
        }
    } else {
        lemma_chars_lt_asymmetric(i1, i2);
        lemma_chars_lt_irreflexive(n1);
    }
}

proof fn lemma_key_lt_transitive(
    n1: Seq<char>,
    i1: Seq<char>,
    n2: Seq<char>,
    i2: Seq<char>,
    n3: Seq<char>,
    i3: Seq<char>,
)
    requires
        key_lt(n1, i1, n2, i2),
        key_lt(n2, i2, n3, i3),
    ensures
        key_lt(n1, i1, n3, i3),
{
    if chars_lt(n1, n2) && chars_lt(n2, n3) {
        lemma_chars_lt_transitive(n1, n2, n3);
    } else if !chars_lt(n1, n2) && !chars_lt(n2, n3) {
        lemma_chars_lt_transitive(i1, i2, i3);
    }
}

proof fn lemma_key_lt_total(n1: Seq<char>, i1: Seq<char>, n2: Seq<char>, i2: Seq<char>)
    requires
        i1 != i2,
    ensures
        key_lt(n1, i1, n2, i2) || key_lt(n2, i2, n1, i1),
{
    if n1 != n2 {
        lemma_chars_lt_total(n1, n2);
    } else {
        lemma_chars_lt_total(i1, i2);
    }
}

/// Whether `(n1, i1)` comes before `(n2, i2)` in [`key_lt`] order.
fn key_less(n1: &Vec<char>, i1: &Vec<char>, n2: &Vec<char>, i2: &Vec<char>) -> (r: bool)
    ensures
        r == key_lt(n1@, i1@, n2@, i2@),
{
    if chars_less(n1, n2) {
        true
    } else if chars_equal(n1, n2) {
        chars_less(i1, i2)
    } else {
        false
    }
}

/// The working state of the merge: the entries so far, strictly ordered, each
/// one the entry of its id, with the lower-cased username and the id of each
/// kept alongside as characters.
pub open spec fn merge_state(
    followers: Seq<UserRow>,
    following: Seq<UserRow>,
    out: Seq<Relationship>,
    names: Seq<Vec<char>>,
    ids: Seq<Vec<char>>,
) -> bool {
    &&& names.len() == out.len()
    &&& ids.len() == out.len()
    &&& forall|j: int| 0 <= j < out.len() ==> (#[trigger] names[j])@ == lowercase(out[j].username@)
    &&& forall|j: int| 0 <= j < out.len() ==> (#[trigger] ids[j])@ == out[j].ig_user_id@
    &&& forall|j: int|
        0 <= j < out.len() ==> relationship_for(followers, following, (#[trigger] out[j]).ig_user_id@)
            == Some(out[j])
    &&& forall|a: int, b: int| 0 <= a < b < out.len() ==> listed_before(#[trigger] out[a], #[trigger] out[b])
}

/// The set of ids that the entries carry.
pub open spec fn entry_ids(out: Seq<Relationship>) -> Set<Seq<char>> {
    Set::new(|x: Seq<char>| exists|j: int| 0 <= j < out.len() && (#[trigger] out[j]).ig_user_id@ == x)
}

/// The entry of the account `id`, which one of the two lists holds.
fn relationship_of(followers: &Vec<UserRow>, following: &Vec<UserRow>, id: &String) -> (r:
    Relationship)
    requires
        relationship_for(followers@, following@, id@) is Some,
    ensures
        relationship_for(followers@, following@, id@) == Some(r),
{
    let in_followers = last_index_with_id(followers, id);
    let in_following = last_index_with_id(following, id);
    let source: &UserRow = match in_followers {
        Some(k) => &followers[k],
        None => &following[in_following.unwrap()],
    };
    let follows_you = in_followers.is_some();
    let you_follow = in_following.is_some();
    let status = if follows_you && you_follow {
        RelationshipStatus::Mutual
    } else if follows_you {
        RelationshipStatus::Fan
    } else {
        RelationshipStatus::Ghosted
    };
    Relationship {
        ig_user_id: source.ig_user_id.clone(),
        username: source.username.clone(),
        full_name: copy_text(&source.full_name),
        is_verified: source.is_verified,
        profile_pic_url: copy_text(&source.profile_pic_url),
        follows_you,
        you_follow,
        status,
    }
}

/// Adds the entry of the account `id` at its place, unless an entry with that
/// id is already there.
fn admit_id(
    followers: &Vec<UserRow>,
    following: &Vec<UserRow>,
    id: &String,
    out: &mut Vec<Relationship>,
    names: &mut Vec<Vec<char>>,
    ids: &mut Vec<Vec<char>>,
)
    requires
        relationship_for(followers@, following@, id@) is Some,
        merge_state(followers@, following@, old(out)@, old(names)@, old(ids)@),
    ensures
        merge_state(followers@, following@, final(out)@, final(names)@, final(ids)@),
        entry_ids(final(out)@) == entry_ids(old(out)@).insert(id@),
{
    let id_chars = chars_of(id.as_str());
    let mut j: usize = 0;
    while j < ids.len()
        invariant
            j <= ids.len(),
            ids@ == old(ids)@,
            out@ == old(out)@,
            names@ == old(names)@,
            merge_state(followers@, following@, out@, names@, ids@),
            id_chars@ == id@,
            forall|k: int| 0 <= k < j ==> (#[trigger] ids@[k])@ != id@,
        decreases ids.len() - j,
    {
        if chars_equal(&ids[j], &id_chars) {
            proof {
                assert(out@[j as int].ig_user_id@ == id@);
                assert(entry_ids(out@) =~= entry_ids(out@).insert(id@));
            }
            return;
        }
        j = j + 1;
    }
    let entry = relationship_of(followers, following, id);
    proof {
        lemma_last_with_id(followers@, id@);
        lemma_last_with_id(following@, id@);
    }
    assert(entry.ig_user_id@ == id@);
    let name = chars_of(to_lowercase(entry.username.as_str()).as_str());
    let mut p: usize = 0;
    while p < out.len() && key_less(&names[p], &ids[p], &name, &id_chars)
        invariant
            p <= out.len(),
            out@ == old(out)@,
            names@ == old(names)@,
            ids@ == old(ids)@,
            merge_state(followers@, following@, out@, names@, ids@),
            name@ == lowercase(entry.username@),
            id_chars@ == entry.ig_user_id@,
            forall|k: int| 0 <= k < p ==> listed_before(#[trigger] out@[k], entry),
        decreases out.len() - p,
    {
        p = p + 1;
    }
    let ghost before = out@;
    proof {
        if p < before.len() {
            assert(ids@[p as int]@ != id@);
            lemma_key_lt_total(
                lowercase(before[p as int].username@),
                before[p as int].ig_user_id@,
                lowercase(entry.username@),
                entry.ig_user_id@,
            );
            assert forall|k: int| p <= k < before.len() implies listed_before(
                entry,
                #[trigger] before[k],
            ) by {
                if k > p {
                    lemma_key_lt_transitive(
                        lowercase(entry.username@),
                        entry.ig_user_id@,
                        lowercase(before[p as int].username@),
                        before[p as int].ig_user_id@,
                        lowercase(before[k].username@),
                        before[k].ig_user_id@,
                    );
                }
            }
        }
    }
    out.insert(p, entry);
    names.insert(p, name);
    ids.insert(p, id_chars);
    proof {
        let after = out@;
        assert(after =~= before.insert(p as int, entry));
        assert forall|a: int, b: int| 0 <= a < b < after.len() implies listed_before(
            #[trigger] after[a],
            #[trigger] after[b],
        ) by {
            if b < p {
                assert(after[a] == before[a] && after[b] == before[b]);
            } else if b == p {
                assert(after[a] == before[a]);
            } else if a < p {
                assert(after[a] == before[a] && after[b] == before[b - 1]);
                lemma_key_lt_transitive(
                    lowercase(before[a].username@),
                    before[a].ig_user_id@,
                    lowercase(entry.username@),
                    entry.ig_user_id@,
                    lowercase(before[b - 1].username@),
                    before[b - 1].ig_user_id@,
                );
            } else if a == p {
                assert(after[b] == before[b - 1]);
            } else {
                assert(after[a] == before[a - 1] && after[b] == before[b - 1]);
            }
        }
        assert forall|k: int| 0 <= k < after.len() implies (#[trigger] names@[k])@ == lowercase(
            after[k].username@,
        ) by {
            if k < p {
                assert(names@[k] == old(names)@[k]);
            } else if k > p {
                assert(names@[k] == old(names)@[k - 1]);
            }
        }
        assert forall|k: int| 0 <= k < after.len() implies (#[trigger] ids@[k])@
            == after[k].ig_user_id@ by {
            if k < p {
                assert(ids@[k] == old(ids)@[k]);
            } else if k > p {
                assert(ids@[k] == old(ids)@[k - 1]);
            }
        }
        assert forall|k: int| 0 <= k < after.len() implies relationship_for(
            followers@,
            following@,
            (#[trigger] after[k]).ig_user_id@,
        ) == Some(after[k]) by {
            if k < p {
                assert(after[k] == before[k]);
            } else if k > p {
                assert(after[k] == before[k - 1]);
            }
        }
        assert forall|x: Seq<char>| entry_ids(after).contains(x) <==> entry_ids(before).insert(
            id@,
        ).contains(x) by {
            if entry_ids(after).contains(x) {
                let k = choose|k: int| 0 <= k < after.len() && (#[trigger] after[k]).ig_user_id@ == x;
                if k < p {
                    assert(after[k] == before[k]);
                } else if k > p {
                    assert(after[k] == before[k - 1]);
                }
            }
            if entry_ids(before).contains(x) {
                let k = choose|k: int|
                    0 <= k < before.len() && (#[trigger] before[k]).ig_user_id@ == x;
                if k < p {
                    assert(after[k] == before[k]);
                } else {
                    assert(after[k + 1] == before[k]);
                }
            }
            if x == id@ {
                assert(after[p as int] == entry);
            }
        }
        assert(entry_ids(after) =~= entry_ids(before).insert(id@));
    }
}

/// The accounts of one snapshot, each once, with the owner's relation to it:
/// `Mutual` when it is both a follower and followed, `Fan` when it is only a
/// follower, `Ghosted` when it is only followed. The details of an account
/// come from its (last) follower row where it has one, else from its (last)
/// following row. The list is ordered by lower-cased username, and among
/// equal lower-cased usernames by id.
pub fn relationships_from_rows(followers: &Vec<UserRow>, following: &Vec<UserRow>) -> (out: Vec<
    Relationship,
>)
    ensures
        forall|j: int|
            0 <= j < out@.len() ==> relationship_for(followers@, following@, (#[trigger] out@[j]).ig_user_id@)
                == Some(out@[j]),
        forall|a: int, b: int| 0 <= a < b < out@.len() ==> listed_before(#[trigger] out@[a], #[trigger] out@[b]),
        forall|k: int|
            0 <= k < followers@.len() ==> exists|j: int|
                0 <= j < out@.len() && (#[trigger] out@[j]).ig_user_id@ == (#[trigger] followers@[k]).ig_user_id@,
        forall|k: int|
            0 <= k < following@.len() ==> exists|j: int|
                0 <= j < out@.len() && (#[trigger] out@[j]).ig_user_id@ == (#[trigger] following@[k]).ig_user_id@,
{
    let mut out: Vec<Relationship> = Vec::new();
    let mut names: Vec<Vec<char>> = Vec::new();
    let mut ids: Vec<Vec<char>> = Vec::new();
    let mut i: usize = 0;
    while i < followers.len()
        invariant
            i <= followers.len(),
            merge_state(followers@, following@, out@, names@, ids@),
            forall|k: int| 0 <= k < i ==> entry_ids(out@).contains((#[trigger] followers@[k]).ig_user_id@),
        decreases followers.len() - i,
    {
        proof {
            let id = followers@[i as int].ig_user_id@;
            assert(lists_id(followers@, id));
            lemma_last_with_id(followers@, id);
        }
        admit_id(followers, following, &followers[i].ig_user_id, &mut out, &mut names, &mut ids);
        i = i + 1;
    }
    let mut i: usize = 0;
    while i < following.len()
        invariant
            i <= following.len(),
            merge_state(followers@, following@, out@, names@, ids@),
            forall|k: int| 0 <= k < followers.len() ==> entry_ids(out@).contains((#[trigger] followers@[k]).ig_user_id@),
            forall|k: int| 0 <= k < i ==> entry_ids(out@).contains((#[trigger] following@[k]).ig_user_id@),
        decreases following.len() - i,
    {
        proof {
            let id = following@[i as int].ig_user_id@;
            assert(lists_id(following@, id));
            lemma_last_with_id(followers@, id);
            lemma_last_with_id(following@, id);
        }
        admit_id(followers, following, &following[i].ig_user_id, &mut out, &mut names, &mut ids);
        i = i + 1;
    }
    proof {
        assert forall|k: int| 0 <= k < followers@.len() implies exists|j: int|
            0 <= j < out@.len() && (#[trigger] out@[j]).ig_user_id@ == (
            #[trigger] followers@[k]).ig_user_id@ by {
            assert(entry_ids(out@).contains(followers@[k].ig_user_id@));
        }
        assert forall|k: int| 0 <= k < following@.len() implies exists|j: int|
            0 <= j < out@.len() && (#[trigger] out@[j]).ig_user_id@ == (
            #[trigger] following@[k]).ig_user_id@ by {
            assert(entry_ids(out@).contains(following@[k].ig_user_id@));
        }
    }
    out
}

// ---------------------------------------------------------------------------
// Stored timestamps
// ---------------------------------------------------------------------------

/// The format in which snapshots record when they were taken.
pub const TAKEN_AT_FORMAT: &'static str = "%Y-%m-%d %H:%M:%S";

/// The same layout with a `T` between date and time.
pub const TAKEN_AT_FORMAT_T: &'static str = "%Y-%m-%dT%H:%M:%S";

/// The instant that chrono's `DateTime::parse_from_rfc3339` reads from the
/// text, converted to UTC; `None` where it refuses the text.
pub uninterp spec fn rfc3339_instant(raw: Seq<char>) -> Option<UtcTime>;

/// The instant that chrono's `NaiveDateTime::parse_from_str` reads from the
/// text with the given format, taken as UTC; `None` where it refuses the text.
pub uninterp spec fn naive_utc_instant(raw: Seq<char>, format: Seq<char>) -> Option<UtcTime>;

/// Calls chrono's `DateTime::parse_from_rfc3339` and converts the result to
/// UTC seconds and nanoseconds; the result is named by [`rfc3339_instant`].
#[verifier::external_body]
fn parse_rfc3339(raw: &str) -> (r: Option<UtcTime>)
    ensures
        r == rfc3339_instant(raw@),
{
    match chrono::DateTime::parse_from_rfc3339(raw) {
        Ok(dt) => {
            let utc = dt.with_timezone(&chrono::Utc);
            Some(UtcTime { secs: utc.timestamp(), nanos: utc.timestamp_subsec_nanos() })
        },
        Err(_) => None,
    }
}

/// Calls chrono's `NaiveDateTime::parse_from_str` and reads the result as a
/// UTC instant; the result is named by [`naive_utc_instant`].
#[verifier::external_body]
fn parse_naive_utc(raw: &str, format: &str) -> (r: Option<UtcTime>)
    ensures
        r == naive_utc_instant(raw@, format@),
{
    match chrono::NaiveDateTime::parse_from_str(raw, format) {
        Ok(naive) => {
            let utc = naive.and_utc();
            Some(UtcTime { secs: utc.timestamp(), nanos: utc.timestamp_subsec_nanos() })
        },
        Err(_) => None,
    }
}

/// When a stored snapshot was taken: the text read as RFC 3339, else in
/// [`TAKEN_AT_FORMAT`], else in [`TAKEN_AT_FORMAT_T`]; where none of them
/// reads it, `now`.
pub open spec fn taken_at_spec(raw: Seq<char>, now: UtcTime) -> UtcTime {
    if rfc3339_instant(raw) is Some {
        rfc3339_instant(raw).unwrap()
    } else if naive_utc_instant(raw, TAKEN_AT_FORMAT@) is Some {
        naive_utc_instant(raw, TAKEN_AT_FORMAT@).unwrap()
    } else if naive_utc_instant(raw, TAKEN_AT_FORMAT_T@) is Some {
        naive_utc_instant(raw, TAKEN_AT_FORMAT_T@).unwrap()
    } else {
        now
    }
}

/// Reads a stored `taken_at` text; `now` stands in where no format reads it.
pub fn parse_taken_at(raw: &str, now: UtcTime) -> (r: UtcTime)
    ensures
        r == taken_at_spec(raw@, now),
{
    if let Some(t) = parse_rfc3339(raw) {
        return t;
    }
    if let Some(t) = parse_naive_utc(raw, TAKEN_AT_FORMAT) {
        return t;
    }
    if let Some(t) = parse_naive_utc(raw, TAKEN_AT_FORMAT_T) {
        return t;
    }
    now
}

} // verus!
