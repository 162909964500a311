//! Reduction of per-process audio sessions into session groups.
use crate::group_id::GroupId;
use crate::process_name::{extract_simple_name, simple_name};
use crate::text::{decimal, push_decimal};
use vstd::prelude::*;
use vstd::string::StringExecFns;

verus! {

/// The activity state of a session or of a session group.
#[derive(Debug, Clone, Copy, PartialEq, Eq, Structural)]
pub enum SessionState {
    Active,
    Inactive,
    Expired,
}

/// The state that the backend's numeric code stands for.
pub open spec fn state_of_code(code: i32) -> SessionState {
    if code == 0 {
        SessionState::Active
    } else if code == 1 {
        SessionState::Inactive
    } else {
        SessionState::Expired
    }
}

impl SessionState {
    /// The state of a session from the backend's numeric code:
    /// 0 is active, 1 inactive, anything else expired.
    pub fn from_code(code: i32) -> (r: SessionState)
        ensures
            r == state_of_code(code),
    {
        if code == 0 {
            SessionState::Active
        } else if code == 1 {
            SessionState::Inactive
        } else {
            SessionState::Expired
        }
    }
}

/// One audio session as the backend reports it for a device.
#[derive(Debug, Clone)]
pub struct RawSession {
    /// The owning process, where the backend could tell it.
    pub process_id: Option<u32>,
    /// The executable path of the owning process, where it could be read.
    pub process_path: Option<String>,
    /// The identity shared by the sessions of one logical application.
    pub grouping_id: GroupId,
    /// The scalar volume in basis points of full scale (0 to 10000);
    /// none where the session reports no number.
    pub volume: Option<u32>,
    pub muted: bool,
    pub state: SessionState,
    /// Whether the backend could read the session's volume, mute and
    /// state; a partition with an unreadable member yields no group.
    pub readable: bool,
}

/// The aggregate of all sessions that share one grouping identity.
#[derive(Debug, Clone)]
pub struct SessionGroup {
    pub id: GroupId,
    pub display_name: String,
    /// The mean volume in hundredths of a percent (0 to 10000).
    pub volume_level: u32,
    pub state: SessionState,
    pub muted: bool,
}

/// Whether a session belongs to the partition of `id`.
pub open spec fn is_member(s: RawSession, id: Seq<char>) -> bool {
    s.grouping_id@ == id
}

/// Whether a session counts towards the volume of the partition of `id`.
pub open spec fn counts_volume(s: RawSession, id: Seq<char>) -> bool {
    is_member(s, id) && s.volume is Some
}

/// The sum of the numeric volumes of the partition of `id`.
pub open spec fn volume_sum(raw: Seq<RawSession>, id: Seq<char>) -> nat
    decreases raw.len(),
{
    if raw.len() == 0 {
        0
    } else {
        volume_sum(raw.drop_last(), id) + if counts_volume(raw.last(), id) {
            raw.last().volume.unwrap() as nat
        } else {
            0
        }
    }
}

/// The number of members of the partition of `id` that report a volume.
pub open spec fn volume_count(raw: Seq<RawSession>, id: Seq<char>) -> nat
    decreases raw.len(),
{
    if raw.len() == 0 {
        0
    } else {
        volume_count(raw.drop_last(), id) + if counts_volume(raw.last(), id) {
            1nat
        } else {
            0nat
        }
    }
}

/// The mean of the numeric volumes of a partition, rounded down; zero where
/// no member reports a number. Scalar basis points are hundredths of a
/// percent, so this is the group's level on the 0 to 100 scale.
pub open spec fn level_of(raw: Seq<RawSession>, id: Seq<char>) -> nat {
    if volume_count(raw, id) == 0 {
        0
    } else {
        volume_sum(raw, id) / volume_count(raw, id)
    }
}

/// Whether some member of the partition of `id` is muted.
pub open spec fn any_muted(raw: Seq<RawSession>, id: Seq<char>) -> bool {
    exists|m: int| 0 <= m < raw.len() && is_member(#[trigger] raw[m], id) && raw[m].muted
}

/// Whether some member of the partition of `id` is active.
pub open spec fn any_active(raw: Seq<RawSession>, id: Seq<char>) -> bool {
    exists|m: int|
        0 <= m < raw.len() && is_member(#[trigger] raw[m], id) && raw[m].state
            == SessionState::Active
}

/// The state of a group: active where some member is, else inactive.
pub open spec fn group_state(raw: Seq<RawSession>, id: Seq<char>) -> SessionState {
    if any_active(raw, id) {
        SessionState::Active
    } else {
        SessionState::Inactive
    }
}

/// The position of the first member of the partition of `id`; -1 if none.
pub open spec fn first_index(raw: Seq<RawSession>, id: Seq<char>) -> int
    decreases raw.len(),
{
    if raw.len() == 0 {
        -1
    } else {
        let f = first_index(raw.drop_last(), id);
        if f >= 0 {
            f
        } else if is_member(raw.last(), id) {
            raw.len() - 1
        } else {
            -1
        }
    }
}

/// The display name of a group whose first member is `s`: the short name
/// of its executable, else `PID n`.
pub open spec fn display_name_of(s: RawSession) -> Seq<char> {
    match s.process_path {
        Some(p) => simple_name(p@),
        None => "PID "@ + decimal(s.process_id.unwrap() as nat),
    }
}

/// Whether every member of the partition of `id` could be read.
pub open spec fn all_readable(raw: Seq<RawSession>, id: Seq<char>) -> bool {
    forall|m: int| 0 <= m < raw.len() && is_member(#[trigger] raw[m], id) ==> raw[m].readable
}

/// Whether the partition of `id` yields a group: it has members, the first
/// of them has a known process, and every member could be read.
pub open spec fn is_kept(raw: Seq<RawSession>, id: Seq<char>) -> bool {
    let k = first_index(raw, id);
    0 <= k < raw.len() && raw[k].process_id is Some && all_readable(raw, id)
}

/// Whether `g` is the group of its identity's partition in `raw`.
pub open spec fn describes_group(raw: Seq<RawSession>, g: SessionGroup) -> bool {
    let id = g.id@;
    &&& is_kept(raw, id)
    &&& g.display_name@ == display_name_of(raw[first_index(raw, id)])
    &&& g.volume_level == level_of(raw, id)
    &&& g.muted == any_muted(raw, id)
    &&& g.state == group_state(raw, id)
}

/// Whether `groups` is an aggregation of `raw`: one group for each kept
/// partition, in some order, and nothing else.
pub open spec fn is_aggregate(raw: Seq<RawSession>, groups: Seq<SessionGroup>) -> bool {
    &&& groups.len() <= raw.len()
    &&& forall|j: int| 0 <= j < groups.len() ==> describes_group(raw, #[trigger] groups[j])
    &&& forall|a: int, b: int|
        0 <= a < b < groups.len() ==> #[trigger] groups[a].id@ != #[trigger] groups[b].id@
    &&& forall|m: int|
        0 <= m < raw.len() && is_kept(raw, #[trigger] raw[m].grouping_id@) ==> exists|j: int|
            0 <= j < groups.len() && #[trigger] groups[j].id@ == raw[m].grouping_id@
}

/// `first_index` is -1 or the position of the first member.
pub proof fn lemma_first_index(raw: Seq<RawSession>, id: Seq<char>)
    ensures
        first_index(raw, id) == -1 ==> forall|m: int|
            0 <= m < raw.len() ==> !is_member(#[trigger] raw[m], id),
        first_index(raw, id) != -1 ==> {
            let f = first_index(raw, id);
            &&& 0 <= f < raw.len()
            &&& is_member(raw[f], id)
            &&& forall|m: int| 0 <= m < f ==> !is_member(#[trigger] raw[m], id)
        },
    decreases raw.len(),
{
    if raw.len() > 0 {
        let p = raw.drop_last();
        lemma_first_index(p, id);
        assert forall|m: int| 0 <= m < p.len() implies p[m] == raw[m] by {}
    }
}

/// The first member of a partition is where `first_index` points.
pub proof fn lemma_first_index_at(raw: Seq<RawSession>, id: Seq<char>, k: int)
    requires
        0 <= k < raw.len(),
        is_member(raw[k], id),
        forall|m: int| 0 <= m < k ==> !is_member(#[trigger] raw[m], id),
    ensures
        first_index(raw, id) == k,
{
    lemma_first_index(raw, id);
    let f = first_index(raw, id);
    if f == -1 {
        assert(!is_member(raw[k], id));
    } else if f < k {
        assert(!is_member(raw[f], id));
    } else if f > k {
        assert(!is_member(raw[k], id));
    }
}

/// A sequence with no member of a partition contributes nothing to it.
proof fn lemma_no_members(raw: Seq<RawSession>, id: Seq<char>)
    requires
        forall|m: int| 0 <= m < raw.len() ==> !is_member(#[trigger] raw[m], id),
    ensures
        volume_sum(raw, id) == 0,
        volume_count(raw, id) == 0,
        !any_muted(raw, id),
        !any_active(raw, id),
        all_readable(raw, id),
    decreases raw.len(),
{
    if raw.len() > 0 {
        let p = raw.drop_last();
        assert forall|m: int| 0 <= m < p.len() implies !is_member(#[trigger] p[m], id) by {
            assert(p[m] == raw[m]);
        }
        lemma_no_members(p, id);
        assert(!is_member(raw[raw.len() - 1], id));
    }
}

/// How a partition's totals grow when the prefix takes one more session.
proof fn lemma_step(raw: Seq<RawSession>, i: int, id: Seq<char>)
    requires
        0 <= i < raw.len(),
    ensures
        volume_sum(raw.take(i + 1), id) == volume_sum(raw.take(i), id) + if counts_volume(
            raw[i],
            id,
        ) {
            raw[i].volume.unwrap() as nat
        } else {
            0
        },
        volume_count(raw.take(i + 1), id) == volume_count(raw.take(i), id) + if counts_volume(
            raw[i],
            id,
        ) {
            1nat
        } else {
            0nat
        },
        any_muted(raw.take(i + 1), id) == (any_muted(raw.take(i), id) || (is_member(raw[i], id)
            && raw[i].muted)),
        any_active(raw.take(i + 1), id) == (any_active(raw.take(i), id) || (is_member(raw[i], id)
            && raw[i].state == SessionState::Active)),
        all_readable(raw.take(i + 1), id) == (all_readable(raw.take(i), id) && (!is_member(
            raw[i],
            id,
        ) || raw[i].readable)),
{
    let p = raw.take(i + 1);
    let q = raw.take(i);
    assert(p.drop_last() =~= q);
    assert(p.last() == raw[i]);
    if any_muted(p, id) {
        let m = choose|m: int| 0 <= m < p.len() && is_member(#[trigger] p[m], id) && p[m].muted;
        if m < i {
            assert(q[m] == p[m]);
        }
    }
    if any_muted(q, id) {
        let m = choose|m: int| 0 <= m < q.len() && is_member(#[trigger] q[m], id) && q[m].muted;
        assert(p[m] == q[m]);
    }
    if is_member(raw[i], id) && raw[i].muted {
        assert(p[i] == raw[i]);
    }
    if any_active(p, id) {
        let m = choose|m: int|
            0 <= m < p.len() && is_member(#[trigger] p[m], id) && p[m].state
                == SessionState::Active;
        if m < i {
            assert(q[m] == p[m]);
        }
    }
    if any_active(q, id) {
        let m = choose|m: int|
            0 <= m < q.len() && is_member(#[trigger] q[m], id) && q[m].state
                == SessionState::Active;
        assert(p[m] == q[m]);
    }
    if is_member(raw[i], id) && raw[i].state == SessionState::Active {
        assert(p[i] == raw[i]);
    }
    if all_readable(p, id) {
        assert forall|m: int| 0 <= m < q.len() && is_member(#[trigger] q[m], id) implies q[m].readable by {
            assert(q[m] == p[m]);
        }
        assert(p[i] == raw[i]);
    }
    if all_readable(q, id) && (!is_member(raw[i], id) || raw[i].readable) {
        assert forall|m: int| 0 <= m < p.len() && is_member(#[trigger] p[m], id) implies p[m].readable by {
            if m < i {
                assert(q[m] == p[m]);
            }
        }
    }
}

/// Running totals of one partition while the sessions are scanned.
#[derive(Clone, Copy)]
struct Accumulator {
    first: usize,
    sum: u128,
    count: usize,
    muted: bool,
    active: bool,
    readable: bool,
}

/// The identity of the partition that an accumulator tracks.
spec fn acc_id(raw: Seq<RawSession>, a: Accumulator) -> Seq<char> {
    raw[a.first as int].grouping_id@
}

/// An accumulator holds the totals of its partition over the first `i`
/// sessions.
spec fn acc_ok(raw: Seq<RawSession>, i: int, a: Accumulator) -> bool {
    let id = acc_id(raw, a);
    &&& a.first < i
    &&& forall|m: int| 0 <= m < a.first ==> !is_member(#[trigger] raw[m], id)
    &&& a.sum == volume_sum(raw.take(i), id)
    &&& a.count == volume_count(raw.take(i), id)
    &&& a.sum <= a.count * 0xFFFF_FFFFu128
    &&& a.count <= i
    &&& a.muted == any_muted(raw.take(i), id)
    &&& a.active == any_active(raw.take(i), id)
    &&& a.readable == all_readable(raw.take(i), id)
}

/// Scans the sessions once, keeping one accumulator per partition in the
/// order in which the partitions first appear.
#[verifier::rlimit(40)]
fn accumulate(raw: &Vec<RawSession>) -> (r: (Vec<Accumulator>, Ghost<Seq<int>>))
    ensures
        ({
            let (accs, owner) = r;
            &&& accs.len() <= raw.len()
            &&& forall|t: int|
                0 <= t < accs.len() ==> acc_ok(raw@, raw.len() as int, #[trigger] accs[t])
            &&& forall|a: int, b: int|
                0 <= a < b < accs.len() ==> acc_id(raw@, #[trigger] accs[a]) != acc_id(
                    raw@,
                    #[trigger] accs[b],
                )
            &&& owner@.len() == raw.len()
            &&& forall|m: int|
                0 <= m < raw.len() ==> 0 <= #[trigger] owner@[m] < accs.len() && acc_id(
                    raw@,
                    accs[owner@[m]],
                ) == raw@[m].grouping_id@
        }),
{
    let n = raw.len();
    let mut accs: Vec<Accumulator> = Vec::new();
    let mut i: usize = 0;
    let ghost mut owner: Seq<int> = Seq::empty();
    while i < n
        invariant
            n == raw.len(),
            i <= n,
            accs.len() <= i,
            forall|t: int| 0 <= t < accs.len() ==> acc_ok(raw@, i as int, #[trigger] accs[t]),
            forall|a: int, b: int|
                0 <= a < b < accs.len() ==> acc_id(raw@, #[trigger] accs[a]) != acc_id(
                    raw@,
                    #[trigger] accs[b],
                ),
            owner.len() == i,
            forall|m: int|
                0 <= m < i ==> 0 <= #[trigger] owner[m] < accs.len() && acc_id(
                    raw@,
                    accs[owner[m]],
                ) == raw@[m].grouping_id@,
        decreases n - i,
    {
        let s = &raw[i];
        let ghost id = s.grouping_id@;
        let mut j: usize = 0;
        while j < accs.len() && !raw[accs[j].first].grouping_id.same_as(&s.grouping_id)
            invariant
                j <= accs.len(),
                forall|t: int| 0 <= t < accs.len() ==> acc_ok(raw@, i as int, #[trigger] accs[t]),
                i < n,
                n == raw.len(),
                forall|t: int| 0 <= t < j ==> acc_id(raw@, #[trigger] accs[t]) != id,
                id == raw@[i as int].grouping_id@,
                s == raw@[i as int],
            decreases accs.len() - j,
        {
            j = j + 1;
        }
        let found = j < accs.len();
        let (add_sum, add_count): (u128, usize) = match s.volume {
            Some(v) => (v as u128, 1),
            None => (0, 0),
        };
        let is_active = match s.state {
            SessionState::Active => true,
            _ => false,
        };
        proof {
            assert forall|t: int| 0 <= t < accs.len() && acc_id(raw@, accs[t]) != id implies acc_ok(
                raw@,
                i + 1,
                #[trigger] accs[t],
            ) by {
                lemma_step(raw@, i as int, acc_id(raw@, accs[t]));
            }
        }
        if found && j < accs.len() {
            let old_acc = accs[j];
            proof {
                lemma_step(raw@, i as int, id);
            }
            let new_acc = Accumulator {
                first: old_acc.first,
                sum: old_acc.sum + add_sum,
                count: old_acc.count + add_count,
                muted: old_acc.muted || s.muted,
                active: old_acc.active || is_active,
                readable: old_acc.readable && s.readable,
            };
            let ghost before = accs@;
            accs.set(j, new_acc);
            proof {
                assert(acc_ok(raw@, i + 1, new_acc));
                assert forall|t: int| 0 <= t < accs.len() implies acc_ok(
                    raw@,
                    i + 1,
                    #[trigger] accs[t],
                ) by {
                    if t != j {
                        assert(accs[t] == before[t]);
                        if acc_id(raw@, before[t]) == id {
                            if t < j {
                                assert(acc_id(raw@, before[t]) != acc_id(raw@, before[j as int]));
                            } else {
                                assert(acc_id(raw@, before[j as int]) != acc_id(raw@, before[t]));
                            }
                        }
                    }
                }
                owner = owner.push(j as int);
                assert forall|m: int| 0 <= m < i + 1 implies 0 <= #[trigger] owner[m] < accs.len()
                    && acc_id(raw@, accs[owner[m]]) == raw@[m].grouping_id@ by {
                    if m < i {
                        assert(acc_id(raw@, accs[owner[m]]) == acc_id(raw@, before[owner[m]]));
                    }
                }
            }
        } else {
            proof {
                assert forall|m: int| 0 <= m < i implies !is_member(
                    #[trigger] raw@.take(i as int)[m],
                    id,
                ) by {
                    assert(raw@.take(i as int)[m] == raw@[m]);
                    assert(acc_id(raw@, accs[owner[m]]) != id);
                }
                lemma_no_members(raw@.take(i as int), id);
                lemma_step(raw@, i as int, id);
                assert forall|m: int| 0 <= m < i implies !is_member(#[trigger] raw[m], id) by {
                    assert(raw@.take(i as int)[m] == raw[m]);
                }
            }
            let new_acc = Accumulator {
                first: i,
                sum: add_sum,
                count: add_count,
                muted: s.muted,
                active: is_active,
                readable: s.readable,
            };
            let ghost before = accs@;
            accs.push(new_acc);
            proof {
                assert(acc_ok(raw@, i + 1, new_acc));
                assert forall|t: int| 0 <= t < accs.len() implies acc_ok(
                    raw@,
                    i + 1,
                    #[trigger] accs[t],
                ) by {
                    if t < before.len() {
                        assert(accs[t] == before[t]);
                    }
                }
                assert forall|a: int, b: int| 0 <= a < b < accs.len() implies acc_id(
                    raw@,
                    #[trigger] accs[a],
                ) != acc_id(raw@, #[trigger] accs[b]) by {
                    if b == before.len() {
                        assert(accs[a] == before[a]);
                    } else {
                        assert(accs[a] == before[a]);
                        assert(accs[b] == before[b]);
                    }
                }
                owner = owner.push(before.len() as int);
                assert forall|m: int| 0 <= m < i + 1 implies 0 <= #[trigger] owner[m] < accs.len()
                    && acc_id(raw@, accs[owner[m]]) == raw@[m].grouping_id@ by {
                    if m < i {
                        assert(accs[owner[m]] == before[owner[m]]);
                    }
                }
            }
        }
        i = i + 1;
    }
    (accs, Ghost(owner))
}

/// The quotient of a sum of at most `count` values of a `u32` by `count`
/// fits in a `u32`.
proof fn lemma_mean_fits(sum: int, count: int)
    requires
        count > 0,
        0 <= sum <= count * 0xFFFF_FFFF,
    ensures
        sum / count <= 0xFFFF_FFFF,
{
    assert(sum / count <= 0xFFFF_FFFF) by (nonlinear_arith)
        requires
            count > 0,
            0 <= sum <= count * 0xFFFF_FFFF,
    ;
}

/// The group of a partition, from its totals and its first session.
fn finish_group(raw: &Vec<RawSession>, a: Accumulator) -> (g: SessionGroup)
    requires
        acc_ok(raw@, raw.len() as int, a),
        raw@[a.first as int].process_id is Some,
        a.readable,
    ensures
        g.id@ == acc_id(raw@, a),
        describes_group(raw@, g),
{
    let n = raw.len();
    let first = &raw[a.first];
    let ghost id = acc_id(raw@, a);
    proof {
        assert(raw@.take(n as int) =~= raw@);
        lemma_first_index_at(raw@, id, a.first as int);
    }
    let pid = match first.process_id {
        Some(pid) => pid,
        None => 0,
    };
    let display_name = match &first.process_path {
        Some(p) => extract_simple_name(p.as_str()),
        None => {
            let mut s = String::from_str("PID ");
            push_decimal(&mut s, pid);
            s
        },
    };
    let volume_level: u32 = if a.count == 0 {
        0
    } else {
        proof {
            lemma_mean_fits(a.sum as int, a.count as int);
        }
        (a.sum / (a.count as u128)) as u32
    };
    let state = if a.active {
        SessionState::Active
    } else {
        SessionState::Inactive
    };
    SessionGroup {
        id: first.grouping_id.duplicate(),
        display_name,
        volume_level,
        state,
        muted: a.muted,
    }
}

/// Reduces the sessions of one device into session groups: one group for
/// each grouping identity whose first session names its process and all of
/// whose sessions could be read, with the
/// mean of the numeric volumes, muted if any member is, active if any
/// member is. The order of the groups is not part of the contract.
pub fn aggregate_sessions(raw: &Vec<RawSession>) -> (groups: Vec<SessionGroup>)
    ensures
        is_aggregate(raw@, groups@),
{
    let (accs, Ghost(owner)) = accumulate(raw);
    let n = raw.len();
    let mut groups: Vec<SessionGroup> = Vec::new();
    let mut t: usize = 0;
    let ghost mut src: Seq<int> = Seq::empty();
    let ghost mut slot: Seq<int> = Seq::empty();
    while t < accs.len()
        invariant
            n == raw.len(),
            accs.len() <= n,
            forall|u: int| 0 <= u < accs.len() ==> acc_ok(raw@, n as int, #[trigger] accs[u]),
            forall|a: int, b: int|
                0 <= a < b < accs.len() ==> acc_id(raw@, #[trigger] accs[a]) != acc_id(
                    raw@,
                    #[trigger] accs[b],
                ),
            t <= accs.len(),
            groups.len() <= t,
            src.len() == groups.len(),
            slot.len() == t,
            forall|q: int|
                0 <= q < groups.len() ==> 0 <= #[trigger] src[q] < t && groups[q].id@ == acc_id(
                    raw@,
                    accs[src[q]],
                ) && describes_group(raw@, groups[q]),
            forall|a: int, b: int| 0 <= a < b < groups.len() ==> #[trigger] src[a] < #[trigger] src[b],
            forall|u: int|
                0 <= u < t && raw@[accs[u].first as int].process_id is Some && accs[u].readable
                    ==> 0 <= #[trigger] slot[u]
                    < groups.len() && src[slot[u]] == u,
        decreases accs.len() - t,
    {
        let a = accs[t];
        let has_pid = match raw[a.first].process_id {
            Some(_) => true,
            None => false,
        };
        if has_pid && a.readable {
            let g = finish_group(raw, a);
            let ghost at = groups.len() as int;
            groups.push(g);
            proof {
                src = src.push(t as int);
                slot = slot.push(at);
            }
        } else {
            proof {
                slot = slot.push(-1);
            }
        }
        t = t + 1;
    }
    proof {
        assert forall|a: int, b: int| 0 <= a < b < groups.len() implies #[trigger] groups@[a].id@
            != #[trigger] groups@[b].id@ by {
            assert(src[a] < src[b]);
        }
        assert forall|m: int|
            0 <= m < raw.len() && is_kept(raw@, #[trigger] raw@[m].grouping_id@) implies exists|
            j: int,
        | 0 <= j < groups.len() && #[trigger] groups@[j].id@ == raw@[m].grouping_id@ by {
            let u = owner[m];
            let id = raw@[m].grouping_id@;
            assert(acc_ok(raw@, n as int, accs[u]));
            lemma_first_index_at(raw@, id, accs[u].first as int);
            assert(groups@[slot[u]].id@ == id);
        }
        assert forall|j: int| 0 <= j < groups.len() implies describes_group(
            raw@,
            #[trigger] groups@[j],
        ) by {
            assert(0 <= src[j] < t);
        }
    }
    groups
}

/// Where every session names its process and could be read, aggregation
/// yields exactly one group for each distinct grouping identity, and never
/// more groups than sessions.
pub proof fn lemma_one_group_per_identity(raw: Seq<RawSession>, groups: Seq<SessionGroup>)
    requires
        is_aggregate(raw, groups),
        forall|m: int| 0 <= m < raw.len() ==> (#[trigger] raw[m]).process_id is Some,
        forall|m: int| 0 <= m < raw.len() ==> (#[trigger] raw[m]).readable,
    ensures
        groups.len() <= raw.len(),
        forall|m: int|
            0 <= m < raw.len() ==> exists|j: int|
                0 <= j < groups.len() && #[trigger] groups[j].id@ == (#[trigger] raw[m]).grouping_id@,
        forall|j: int|
            0 <= j < groups.len() ==> exists|m: int|
                0 <= m < raw.len() && (#[trigger] raw[m]).grouping_id@ == #[trigger] groups[j].id@,
        forall|a: int, b: int|
            0 <= a < groups.len() && 0 <= b < groups.len() && #[trigger] groups[a].id@
                == #[trigger] groups[b].id@ ==> a == b,
{
    assert forall|m: int| 0 <= m < raw.len() implies exists|j: int|
        0 <= j < groups.len() && #[trigger] groups[j].id@ == (#[trigger] raw[m]).grouping_id@ by {
        let id = raw[m].grouping_id@;
        lemma_first_index(raw, id);
        assert(is_kept(raw, id));
    }
    assert forall|j: int| 0 <= j < groups.len() implies exists|m: int|
        0 <= m < raw.len() && (#[trigger] raw[m]).grouping_id@ == #[trigger] groups[j].id@ by {
        let id = groups[j].id@;
        assert(describes_group(raw, groups[j]));
        lemma_first_index(raw, id);
        let k = first_index(raw, id);
        assert(raw[k].grouping_id@ == id);
    }
    assert forall|a: int, b: int|
        0 <= a < groups.len() && 0 <= b < groups.len() && #[trigger] groups[a].id@
            == #[trigger] groups[b].id@ implies a == b by {
        if a < b {
            assert(groups[a].id@ != groups[b].id@);
        } else if b < a {
            assert(groups[b].id@ != groups[a].id@);
        }
    }
}

/// A group is muted exactly when at least one session of its partition is
/// muted.
pub proof fn lemma_group_muted(raw: Seq<RawSession>, groups: Seq<SessionGroup>, j: int)
    requires
        is_aggregate(raw, groups),
        0 <= j < groups.len(),
    ensures
        groups[j].muted <==> exists|m: int|
            0 <= m < raw.len() && (#[trigger] raw[m]).grouping_id@ == groups[j].id@ && raw[m].muted,
{
    assert(describes_group(raw, groups[j]));
}

/// A group's level is the mean of the numeric volumes of its partition,
/// rounded down to a hundredth of a percent (a scalar basis point is a
/// hundredth of a percent); it is zero where no member reports a number.
pub proof fn lemma_group_level(raw: Seq<RawSession>, groups: Seq<SessionGroup>, j: int)
    requires
        is_aggregate(raw, groups),
        0 <= j < groups.len(),
    ensures
        volume_count(raw, groups[j].id@) == 0 ==> groups[j].volume_level == 0,
        volume_count(raw, groups[j].id@) > 0 ==> {
            let level = groups[j].volume_level as int;
            let count = volume_count(raw, groups[j].id@) as int;
            let sum = volume_sum(raw, groups[j].id@) as int;
            level * count <= sum < (level + 1) * count
        },
{
    assert(describes_group(raw, groups[j]));
    let count = volume_count(raw, groups[j].id@) as int;
    let sum = volume_sum(raw, groups[j].id@) as int;
    if count > 0 {
        let level = sum / count;
        assert(level * count <= sum < (level + 1) * count) by (nonlinear_arith)
            requires
                count > 0,
                sum >= 0,
                level == sum / count,
        ;
    }
}

} // verus!
