//! Cluster membership reconciliation: the member table is replaced wholesale
//! by the remote member list of the first seed that responds, and the
//! connection churn — which member connections to drop and which to create —
//! is computed as the set differences between the old table and the remote
//! list.

use vstd::prelude::*;
use crate::types::Member;

verus! {

/// The member table is strictly sorted by id: ids are unique and iteration
/// order is deterministic, which round-robin reproducibility relies on.
pub open spec fn sorted_by_id(ms: Seq<Member>) -> bool {
    forall|i: int, j: int| 0 <= i < j < ms.len() ==> ms[i].id < ms[j].id
}

/// Some member of `ms` carries `id`.
pub open spec fn has_id(ms: Seq<Member>, id: u64) -> bool {
    exists|i: int| 0 <= i < ms.len() && ms[i].id == id
}

/// Some pair of the remote member list carries `id`.
pub open spec fn has_pair_id(rs: Seq<(u64, String)>, id: u64) -> bool {
    exists|i: int| 0 <= i < rs.len() && rs[i].0 == id
}

/// Some entry of `ids` is `id`.
pub open spec fn ids_have(ids: Seq<u64>, id: u64) -> bool {
    exists|k: int| 0 <= k < ids.len() && ids[k] == id
}

/// The ids of the remote member list are pairwise distinct.
pub open spec fn distinct_ids(rs: Seq<(u64, String)>) -> bool {
    forall|i: int, j: int| 0 <= i < j < rs.len() ==> rs[i].0 != rs[j].0
}

/// `m` is the member that the remote pair `p` describes.
pub open spec fn matches_pair(m: Member, p: (u64, String)) -> bool {
    m.id == p.0 && m.address@ == p.1@
}

/// `table` carries exactly the members of the first `bound` remote pairs:
/// every table entry comes from such a pair and every such pair is
/// represented.
pub open spec fn covers_prefix(table: Seq<Member>, rs: Seq<(u64, String)>, bound: int) -> bool {
    &&& table.len() == bound
    &&& forall|i: int|
        0 <= i < table.len() ==> exists|j: int| 0 <= j < bound && matches_pair(
            #[trigger] table[i],
            rs[j],
        )
    &&& forall|j: int|
        0 <= j < bound ==> exists|i: int| 0 <= i < table.len() && matches_pair(
            table[i],
            #[trigger] rs[j],
        )
}

/// The member table `ms` is exactly the remote list `rs`.
pub open spec fn table_is_remote(ms: Seq<Member>, rs: Seq<(u64, String)>) -> bool {
    covers_prefix(ms, rs, rs.len() as int)
}

/// Every entry of `adds` is a remote member (among the first `bound` pairs)
/// that `ms` does not carry.
pub open spec fn additions_sound(
    adds: Seq<Member>,
    ms: Seq<Member>,
    rs: Seq<(u64, String)>,
    bound: int,
) -> bool {
    forall|k: int|
        0 <= k < adds.len() ==> !has_id(ms, (#[trigger] adds[k]).id) && exists|j: int|
            0 <= j < bound && matches_pair(adds[k], rs[j])
}

/// Every remote member among the first `bound` pairs that `ms` does not
/// carry stands in `adds`.
pub open spec fn additions_complete(
    adds: Seq<Member>,
    ms: Seq<Member>,
    rs: Seq<(u64, String)>,
    bound: int,
) -> bool {
    forall|j: int|
        0 <= j < bound && !has_id(ms, (#[trigger] rs[j]).0) ==> has_id(adds, rs[j].0)
}

/// What one successful refresh did: the new table is exactly the remote
/// list, sorted, and the plan holds exactly the connection churn —
/// `to_remove` the previously connected ids that the remote list no longer
/// names, `to_add` the remote members that were not yet connected.
pub open spec fn refresh_applied(
    pre: Seq<Member>,
    post: Seq<Member>,
    remote: Seq<(u64, String)>,
    to_add: Seq<Member>,
    to_remove: Seq<u64>,
) -> bool {
    &&& sorted_by_id(post)
    &&& table_is_remote(post, remote)
    &&& forall|k: int|
        0 <= k < to_remove.len() ==> has_id(pre, #[trigger] to_remove[k]) && !has_pair_id(
            remote,
            to_remove[k],
        )
    &&& forall|id: u64| has_id(pre, id) && !has_pair_id(remote, id) ==> ids_have(to_remove, id)
    &&& forall|i: int, j: int| 0 <= i < j < to_remove.len() ==> to_remove[i] != to_remove[j]
    &&& additions_sound(to_add, pre, remote, remote.len() as int)
    &&& additions_complete(to_add, pre, remote, remote.len() as int)
    &&& forall|i: int, j: int| 0 <= i < j < to_add.len() ==> to_add[i].id != to_add[j].id
}

/// The connection churn of one successful refresh: drop the connections of
/// `to_remove`, create connections for `to_add`.
pub struct RefreshPlan {
    pub to_add: Vec<Member>,
    pub to_remove: Vec<u64>,
}

/// Does the member table carry `id`?
pub fn members_contain_id(ms: &Vec<Member>, id: u64) -> (r: bool)
    ensures
        r == has_id(ms@, id),
{
    let mut i: usize = 0;
    while i < ms.len()
        invariant
            i <= ms@.len(),
            forall|k: int| 0 <= k < i ==> ms@[k].id != id,
        decreases ms@.len() - i,
    {
        if ms[i].id == id {
            return true;
        }
        i = i + 1;
    }
    false
}

/// Does the remote member list carry `id`?
pub fn pairs_contain_id(rs: &Vec<(u64, String)>, id: u64) -> (r: bool)
    ensures
        r == has_pair_id(rs@, id),
{
    let mut i: usize = 0;
    while i < rs.len()
        invariant
            i <= rs@.len(),
            forall|k: int| 0 <= k < i ==> rs@[k].0 != id,
        decreases rs@.len() - i,
    {
        if rs[i].0 == id {
            return true;
        }
        i = i + 1;
    }
    false
}

/// Inserting at the boundary between the smaller and the larger ids keeps
/// the table sorted.
proof fn lemma_insert_keeps_sorted(pre: Seq<Member>, post: Seq<Member>, pos: int, m: Member)
    requires
        0 <= pos <= pre.len(),
        post == pre.insert(pos, m),
        sorted_by_id(pre),
        forall|k: int| 0 <= k < pos ==> pre[k].id < m.id,
        forall|k: int| pos <= k < pre.len() ==> pre[k].id > m.id,
    ensures
        sorted_by_id(post),
{
    assert forall|i: int, j: int| 0 <= i < j < post.len() implies post[i].id < post[j].id by {
        if i < pos && j < pos {
            assert(post[i] == pre[i] && post[j] == pre[j]);
        } else if i < pos && j == pos {
            assert(post[i] == pre[i]);
        } else if i < pos && j > pos {
            assert(post[i] == pre[i] && post[j] == pre[j - 1]);
        } else if i == pos {
            assert(post[j] == pre[j - 1]);
        } else {
            assert(post[i] == pre[i - 1] && post[j] == pre[j - 1]);
        }
    }
}

/// Insert a member with a fresh id into a sorted table, keeping it sorted;
/// returns where it was placed.
pub fn insert_sorted(ms: &mut Vec<Member>, m: Member) -> (pos: usize)
    requires
        sorted_by_id(old(ms)@),
        !has_id(old(ms)@, m.id),
    ensures
        pos <= old(ms)@.len(),
        final(ms)@ == old(ms)@.insert(pos as int, m),
        sorted_by_id(final(ms)@),
{
    let mut i: usize = 0;
    while i < ms.len() && ms[i].id < m.id
        invariant
            i <= ms@.len(),
            forall|k: int| 0 <= k < i ==> ms@[k].id < m.id,
            ms@ == old(ms)@,
        decreases ms@.len() - i,
    {
        i = i + 1;
    }
    // every id at or after the insertion point is larger than the fresh id
    assert forall|k: int| i <= k < ms@.len() implies ms@[k].id > m.id by {
        if ms@[k].id == m.id {
            assert(has_id(ms@, m.id));
        }
        if k > i as int && ms@[k].id < m.id {
            assert(ms@[i as int].id < ms@[k].id);
        }
    }
    let ghost pre = ms@;
    let ghost pos = i as int;
    ms.insert(i, m);
    proof {
        lemma_insert_keeps_sorted(pre, ms@, pos, m);
    }
    i
}

/// Inserting the member of the remote pair at `idx` extends the
/// table–remote correspondence by one pair.
proof fn lemma_cover_step(
    pre: Seq<Member>,
    rs: Seq<(u64, String)>,
    idx: int,
    pos: int,
    fresh: Member,
)
    requires
        0 <= idx < rs.len(),
        matches_pair(fresh, rs[idx]),
        0 <= pos <= pre.len(),
        covers_prefix(pre, rs, idx),
    ensures
        covers_prefix(pre.insert(pos, fresh), rs, idx + 1),
{
    let post = pre.insert(pos, fresh);
    assert forall|i: int| 0 <= i < post.len() implies exists|j: int|
        0 <= j < idx + 1 && matches_pair(#[trigger] post[i], rs[j]) by {
        if i == pos {
            assert(matches_pair(post[i], rs[idx]));
        } else {
            let w = if i < pos {
                i
            } else {
                i - 1
            };
            assert(post[i] == pre[w]);
            let j = choose|j: int| 0 <= j < idx && matches_pair(pre[w], rs[j]);
            assert(matches_pair(post[i], rs[j]));
        }
    }
    assert forall|j: int| 0 <= j < idx + 1 implies exists|i: int|
        0 <= i < post.len() && matches_pair(post[i], #[trigger] rs[j]) by {
        if j < idx {
            let w = choose|w: int| 0 <= w < pre.len() && matches_pair(pre[w], rs[j]);
            let i = if w < pos {
                w
            } else {
                w + 1
            };
            assert(post[i] == pre[w]);
            assert(matches_pair(post[i], rs[j]));
        } else {
            assert(post[pos] == fresh);
            assert(matches_pair(post[pos], rs[j]));
        }
    }
}

/// A table that corresponds to the first `idx` remote pairs of a list with
/// distinct ids does not yet carry the id of the pair at `idx`.
proof fn lemma_cover_fresh(table: Seq<Member>, rs: Seq<(u64, String)>, idx: int)
    requires
        distinct_ids(rs),
        0 <= idx < rs.len(),
        covers_prefix(table, rs, idx),
    ensures
        !has_id(table, rs[idx].0),
{
    if has_id(table, rs[idx].0) {
        let i = choose|i: int| 0 <= i < table.len() && table[i].id == rs[idx].0;
        let j = choose|j: int| 0 <= j < idx && matches_pair(table[i], rs[j]);
        assert(rs[j].0 == rs[idx].0);
    }
}

/// Build a sorted member table that carries exactly the remote member list.
pub fn build_table(remote: &Vec<(u64, String)>) -> (r: Vec<Member>)
    requires
        distinct_ids(remote@),
    ensures
        sorted_by_id(r@),
        table_is_remote(r@, remote@),
{
    let mut table: Vec<Member> = Vec::new();
    let mut idx: usize = 0;
    while idx < remote.len()
        invariant
            distinct_ids(remote@),
            idx <= remote@.len(),
            sorted_by_id(table@),
            covers_prefix(table@, remote@, idx as int),
        decreases remote@.len() - idx,
    {
        let id = remote[idx].0;
        let addr = remote[idx].1.clone();
        let fresh = Member { id, address: addr };
        assert(matches_pair(fresh, remote@[idx as int]));
        proof {
            lemma_cover_fresh(table@, remote@, idx as int);
        }
        let ghost pre = table@;
        let pos = insert_sorted(&mut table, fresh);
        proof {
            lemma_cover_step(pre, remote@, idx as int, pos as int, fresh);
        }
        idx = idx + 1;
    }
    table
}

/// A table that is exactly the remote list carries an id if and only if the
/// remote list does.
pub proof fn lemma_remote_table_ids(ms: Seq<Member>, rs: Seq<(u64, String)>)
    requires
        table_is_remote(ms, rs),
    ensures
        forall|id: u64| has_id(ms, id) <==> has_pair_id(rs, id),
{
    assert forall|id: u64| has_id(ms, id) implies has_pair_id(rs, id) by {
        let i = choose|i: int| 0 <= i < ms.len() && ms[i].id == id;
        let j = choose|j: int| 0 <= j < rs.len() && matches_pair(ms[i], rs[j]);
        assert(rs[j].0 == id);
    }
    assert forall|id: u64| has_pair_id(rs, id) implies has_id(ms, id) by {
        let j = choose|j: int| 0 <= j < rs.len() && rs[j].0 == id;
        let i = choose|i: int| 0 <= i < ms.len() && matches_pair(ms[i], rs[j]);
        assert(ms[i].id == id);
    }
}

/// The previously connected ids that the remote member list no longer names:
/// their connections are to be dropped.
pub fn removals(ms: &Vec<Member>, remote: &Vec<(u64, String)>) -> (r: Vec<u64>)
    requires
        sorted_by_id(ms@),
    ensures
        forall|k: int|
            0 <= k < r@.len() ==> has_id(ms@, #[trigger] r@[k]) && !has_pair_id(remote@, r@[k]),
        forall|id: u64| has_id(ms@, id) && !has_pair_id(remote@, id) ==> ids_have(r@, id),
        forall|i: int, j: int| 0 <= i < j < r@.len() ==> r@[i] != r@[j],
{
    let mut r: Vec<u64> = Vec::new();
    let mut i: usize = 0;
    while i < ms.len()
        invariant
            sorted_by_id(ms@),
            i <= ms@.len(),
            forall|k: int|
                0 <= k < r@.len() ==> exists|w: int|
                    0 <= w < i && (#[trigger] r@[k]) == ms@[w].id,
            forall|k: int| 0 <= k < r@.len() ==> !has_pair_id(remote@, #[trigger] r@[k]),
            forall|w: int|
                0 <= w < i && !has_pair_id(remote@, (#[trigger] ms@[w]).id) ==> ids_have(
                    r@,
                    ms@[w].id,
                ),
            forall|a: int, b: int| 0 <= a < b < r@.len() ==> r@[a] != r@[b],
        decreases ms@.len() - i,
    {
        let ghost prev = r@;
        if !pairs_contain_id(remote, ms[i].id) {
            assert forall|k: int| 0 <= k < r@.len() implies #[trigger] r@[k] != ms@[i as int].id by {
                let w = choose|w: int| 0 <= w < i && r@[k] == ms@[w].id;
                assert(ms@[w].id < ms@[i as int].id);
            }
            r.push(ms[i].id);
        }
        assert forall|w: int|
            0 <= w < i + 1 && !has_pair_id(remote@, (#[trigger] ms@[w]).id) implies ids_have(
            r@,
            ms@[w].id,
        ) by {
            if w < i {
                let k = choose|k: int| 0 <= k < prev.len() && prev[k] == ms@[w].id;
                assert(r@[k] == ms@[w].id);
            } else {
                assert(r@[r@.len() - 1] == ms@[w].id);
            }
        }
        i = i + 1;
    }
    assert forall|k: int| 0 <= k < r@.len() implies has_id(ms@, #[trigger] r@[k]) by {
        let w = choose|w: int| 0 <= w < ms@.len() && r@[k] == ms@[w].id;
    }
    r
}

/// A member that the table misses, pushed onto the additions, keeps the
/// additions sound, complete and duplicate-free one pair further.
proof fn lemma_additions_step(
    prev: Seq<Member>,
    ms: Seq<Member>,
    rs: Seq<(u64, String)>,
    i: int,
    fresh: Member,
)
    requires
        distinct_ids(rs),
        0 <= i < rs.len(),
        matches_pair(fresh, rs[i]),
        !has_id(ms, fresh.id),
        additions_sound(prev, ms, rs, i),
        additions_complete(prev, ms, rs, i),
        forall|a: int, b: int| 0 <= a < b < prev.len() ==> prev[a].id != prev[b].id,
    ensures
        additions_sound(prev.push(fresh), ms, rs, i + 1),
        additions_complete(prev.push(fresh), ms, rs, i + 1),
        forall|a: int, b: int|
            0 <= a < b < prev.push(fresh).len() ==> prev.push(fresh)[a].id != prev.push(
                fresh,
            )[b].id,
{
    let post = prev.push(fresh);
    assert forall|k: int| 0 <= k < post.len() implies !has_id(ms, (#[trigger] post[k]).id)
        && exists|j: int| 0 <= j < i + 1 && matches_pair(post[k], rs[j]) by {
        if k < prev.len() {
            assert(post[k] == prev[k]);
            let j = choose|j: int| 0 <= j < i && matches_pair(prev[k], rs[j]);
            assert(matches_pair(post[k], rs[j]));
        } else {
            assert(post[k] == fresh);
            assert(matches_pair(post[k], rs[i]));
        }
    }
    assert forall|j: int| 0 <= j < i + 1 && !has_id(ms, (#[trigger] rs[j]).0) implies has_id(
        post,
        rs[j].0,
    ) by {
        if j < i {
            let k = choose|k: int| 0 <= k < prev.len() && prev[k].id == rs[j].0;
            assert(post[k].id == rs[j].0);
        } else {
            assert(post[post.len() - 1].id == rs[j].0);
        }
    }
    assert forall|a: int, b: int| 0 <= a < b < post.len() implies post[a].id != post[b].id by {
        if b == post.len() - 1 {
            assert(post[a] == prev[a]);
            let j = choose|j: int| 0 <= j < i && matches_pair(prev[a], rs[j]);
            assert(rs[j].0 != rs[i].0);
        } else {
            assert(post[a] == prev[a] && post[b] == prev[b]);
        }
    }
}

/// A remote member that the table already carries adds nothing: soundness
/// and completeness carry over one pair further unchanged.
proof fn lemma_additions_skip(
    prev: Seq<Member>,
    ms: Seq<Member>,
    rs: Seq<(u64, String)>,
    i: int,
)
    requires
        0 <= i < rs.len(),
        has_id(ms, rs[i].0),
        additions_sound(prev, ms, rs, i),
        additions_complete(prev, ms, rs, i),
    ensures
        additions_sound(prev, ms, rs, i + 1),
        additions_complete(prev, ms, rs, i + 1),
{
    assert forall|k: int| 0 <= k < prev.len() implies !has_id(ms, (#[trigger] prev[k]).id)
        && exists|j: int| 0 <= j < i + 1 && matches_pair(prev[k], rs[j]) by {
        let j = choose|j: int| 0 <= j < i && matches_pair(prev[k], rs[j]);
        assert(matches_pair(prev[k], rs[j]));
    }
}

/// The remote members that were not yet connected: connections are to be
/// created for them.
pub fn additions(ms: &Vec<Member>, remote: &Vec<(u64, String)>) -> (r: Vec<Member>)
    requires
        distinct_ids(remote@),
    ensures
        additions_sound(r@, ms@, remote@, remote@.len() as int),
        additions_complete(r@, ms@, remote@, remote@.len() as int),
        forall|i: int, j: int| 0 <= i < j < r@.len() ==> r@[i].id != r@[j].id,
{
    let mut r: Vec<Member> = Vec::new();
    let mut i: usize = 0;
    while i < remote.len()
        invariant
            distinct_ids(remote@),
            i <= remote@.len(),
            additions_sound(r@, ms@, remote@, i as int),
            additions_complete(r@, ms@, remote@, i as int),
            forall|a: int, b: int| 0 <= a < b < r@.len() ==> r@[a].id != r@[b].id,
        decreases remote@.len() - i,
    {
        let id = remote[i].0;
        let ghost prev = r@;
        if !members_contain_id(ms, id) {
            let fresh = Member { id, address: remote[i].1.clone() };
            assert(matches_pair(fresh, remote@[i as int]));
            r.push(fresh);
            proof {
                lemma_additions_step(prev, ms@, remote@, i as int, fresh);
            }
        } else {
            proof {
                lemma_additions_skip(prev, ms@, remote@, i as int);
            }
        }
        i = i + 1;
    }
    r
}

/// Idempotent refresh: once a refresh has installed a remote member list,
/// refreshing again with the same list plans no connection churn — nothing
/// to add, nothing to remove.
pub proof fn lemma_refresh_idempotent(
    pre: Seq<Member>,
    mid: Seq<Member>,
    post: Seq<Member>,
    remote: Seq<(u64, String)>,
    add1: Seq<Member>,
    rem1: Seq<u64>,
    add2: Seq<Member>,
    rem2: Seq<u64>,
)
    requires
        refresh_applied(pre, mid, remote, add1, rem1),
        refresh_applied(mid, post, remote, add2, rem2),
    ensures
        add2.len() == 0,
        rem2.len() == 0,
{
    if rem2.len() > 0 {
        let id = rem2[0];
        assert(has_id(mid, id) && !has_pair_id(remote, id));
        let i = choose|i: int| 0 <= i < mid.len() && mid[i].id == id;
        let j = choose|j: int| 0 <= j < remote.len() && matches_pair(mid[i], remote[j]);
        assert(has_pair_id(remote, id)) by {
            assert(remote[j].0 == id);
        }
    }
    if add2.len() > 0 {
        assert(!has_id(mid, add2[0].id) && exists|j: int|
            0 <= j < remote.len() && matches_pair(add2[0], remote[j]));
        let j = choose|j: int| 0 <= j < remote.len() && matches_pair(add2[0], remote[j]);
        let i = choose|i: int| 0 <= i < mid.len() && matches_pair(mid[i], remote[j]);
        assert(has_id(mid, add2[0].id)) by {
            assert(mid[i].id == add2[0].id);
        }
    }
}

} // verus!
