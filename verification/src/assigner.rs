//! The assigner of the completely fair tasks (CFT) policy: it pairs each
//! enqueuer task with a dequeuer task on one shard, hands new enqueuers
//! their shards round-robin, releases dequeuers that have nothing left to
//! do, and frees the records of finished tasks.
//!
//! Tasks register (`register`) and say when they are done (`mark_done`);
//! the assigner task runs `assign_pass` over and over, yielding between
//! passes, until it is asked to stop (`request_termination`), and then
//! frees every record (`terminate`).
use crate::task_node::TaskRole;
use vstd::prelude::*;

verus! {

/// What the assigner knows of one task.
#[derive(Debug, Clone, Copy, PartialEq, Eq, Structural)]
pub struct TaskRecord {
    /// Whether the task enqueues or dequeues.
    pub role: TaskRole,
    /// The shard the task works on, once it is assigned.
    pub shard_ind: usize,
    /// The task has finished.
    pub done: bool,
    /// The task is paired with a task of the other role.
    pub paired: bool,
    /// The task has been given a shard.
    pub assigned: bool,
    /// The id of the task it is paired with.
    pub pair: Option<usize>,
}

/// Whether task `i` of the table `t` has a record.
pub open spec fn live(t: Seq<Option<TaskRecord>>, i: int) -> bool {
    0 <= i < t.len() && t[i] is Some
}

/// The record of task `i`.
pub open spec fn rec(t: Seq<Option<TaskRecord>>, i: int) -> TaskRecord {
    t[i]->0
}

/// Task `i` is consistent: an assigned task has a valid shard, and a paired
/// task has a partner of the other role, paired back with it, on the same
/// shard.
pub open spec fn task_ok(t: Seq<Option<TaskRecord>>, n: nat, i: int) -> bool {
    live(t, i) ==> {
        let r = rec(t, i);
        &&& r.assigned ==> r.shard_ind < n
        &&& r.paired == (r.pair is Some)
        &&& r.paired ==> {
            let j = r.pair->0 as int;
            &&& live(t, j)
            &&& j != i
            &&& rec(t, j).pair == Some(i as usize)
            &&& rec(t, j).paired
            &&& rec(t, j).role != r.role
            &&& r.assigned
            &&& rec(t, j).shard_ind == r.shard_ind
        }
    }
}

/// Every task of the table is consistent.
pub open spec fn pairs_ok(t: Seq<Option<TaskRecord>>, n: nat) -> bool {
    &&& t.len() <= usize::MAX
    &&& forall|i: int| 0 <= i < t.len() ==> #[trigger] task_ok(t, n, i)
}

/// A finished task whose record can go: a dequeuer, or an enqueuer that
/// never got a shard or whose shard is empty.
pub open spec fn freeable(t: Seq<Option<TaskRecord>>, se: Seq<bool>, i: int) -> bool {
    &&& live(t, i)
    &&& rec(t, i).done
    &&& (rec(t, i).role == TaskRole::Dequeue || !rec(t, i).assigned || se[rec(
        t,
        i,
    ).shard_ind as int])
}

/// Task `i` after the finished tasks are freed: a freed task has no record;
/// a task whose partner was freed is unpaired, and a dequeuer that lost its
/// enqueuer also loses its shard.
pub open spec fn after_free(t: Seq<Option<TaskRecord>>, se: Seq<bool>, i: int) -> Option<TaskRecord> {
    if !live(t, i) || freeable(t, se, i) {
        None
    } else {
        let r = rec(t, i);
        if r.paired && freeable(t, se, r.pair->0 as int) {
            Some(
                TaskRecord {
                    paired: false,
                    pair: None,
                    assigned: r.role == TaskRole::Enqueue && r.assigned,
                    ..r
                },
            )
        } else {
            Some(r)
        }
    }
}

/// The table after the finished tasks are freed.
pub open spec fn free_pass(t: Seq<Option<TaskRecord>>, se: Seq<bool>) -> Seq<Option<TaskRecord>> {
    Seq::new(t.len(), |i: int| after_free(t, se, i))
}

/// Task `i` is an enqueuer without a shard.
pub open spec fn unassigned_enq(t: Seq<Option<TaskRecord>>, i: int) -> bool {
    live(t, i) && rec(t, i).role == TaskRole::Enqueue && !rec(t, i).assigned
}

/// The number of enqueuers without a shard among tasks `lo..hi`.
pub open spec fn pending(t: Seq<Option<TaskRecord>>, lo: int, hi: int) -> nat
    decreases hi - lo,
{
    if lo >= hi {
        0
    } else {
        pending(t, lo + 1, hi) + if unassigned_enq(t, lo) {
            1nat
        } else {
            0nat
        }
    }
}

/// Task `i` after the enqueuers without a shard get one: they are served
/// newest first, each taking the next shard round-robin from `next`.
pub open spec fn after_assign(t: Seq<Option<TaskRecord>>, next: nat, n: nat, i: int) -> Option<
    TaskRecord,
> {
    if unassigned_enq(t, i) {
        Some(
            TaskRecord {
                shard_ind: ((next + pending(t, i + 1, t.len() as int)) % n) as usize,
                assigned: true,
                ..rec(t, i)
            },
        )
    } else {
        t[i]
    }
}

/// The table after the enqueuers without a shard get one.
pub open spec fn assign_seq(t: Seq<Option<TaskRecord>>, next: nat, n: nat) -> Seq<
    Option<TaskRecord>,
> {
    Seq::new(t.len(), |i: int| after_assign(t, next, n, i))
}

/// Task `i` is an unpaired dequeuer on an empty shard: it loses its shard.
pub open spec fn released(t: Seq<Option<TaskRecord>>, se: Seq<bool>, i: int) -> bool {
    &&& live(t, i)
    &&& rec(t, i).role == TaskRole::Dequeue
    &&& rec(t, i).assigned
    &&& !rec(t, i).paired
    &&& se[rec(t, i).shard_ind as int]
}

/// The table after idle dequeuers are released.
pub open spec fn release_pass(t: Seq<Option<TaskRecord>>, se: Seq<bool>) -> Seq<
    Option<TaskRecord>,
> {
    Seq::new(
        t.len(),
        |i: int|
            if released(t, se, i) {
                Some(TaskRecord { assigned: false, ..rec(t, i) })
            } else {
                t[i]
            },
    )
}

/// Tasks `a` and `b` can be paired: both unpaired, of different roles, the
/// enqueuer with a shard and the dequeuer without one.
pub open spec fn can_pair(t: Seq<Option<TaskRecord>>, a: int, b: int) -> bool {
    &&& live(t, a)
    &&& live(t, b)
    &&& !rec(t, a).paired
    &&& !rec(t, b).paired
    &&& rec(t, a).role != rec(t, b).role
    &&& (rec(t, a).role == TaskRole::Enqueue ==> rec(t, a).assigned && !rec(t, b).assigned)
    &&& (rec(t, a).role == TaskRole::Dequeue ==> !rec(t, a).assigned && rec(t, b).assigned)
}

/// How the pairing step turned table `t` into `u`: the same tasks with the
/// same roles; a task paired in `t` keeps its record; an unpaired task
/// either keeps its record or is paired with a task it could be paired
/// with in `t`, the dequeuer taking the enqueuer's shard.
pub open spec fn pairing_step(t: Seq<Option<TaskRecord>>, u: Seq<Option<TaskRecord>>) -> bool {
    &&& u.len() == t.len()
    &&& forall|i: int| 0 <= i < t.len() ==> #[trigger] live(u, i) == live(t, i)
    &&& forall|i: int|
        live(t, i) && (rec(t, i).paired || !rec(u, i).paired) ==> #[trigger] rec(u, i) == rec(t, i)
    &&& forall|i: int|
        live(t, i) && !rec(t, i).paired && #[trigger] rec(u, i).paired ==> {
            let j = rec(u, i).pair->0 as int;
            &&& can_pair(t, i, j)
            &&& rec(t, i).role == TaskRole::Enqueue ==> rec(u, i) == TaskRecord {
                paired: true,
                pair: Some(j as usize),
                ..rec(t, i)
            }
            &&& rec(t, i).role == TaskRole::Dequeue ==> rec(u, i) == TaskRecord {
                paired: true,
                pair: Some(j as usize),
                assigned: true,
                shard_ind: rec(t, j).shard_ind,
                ..rec(t, i)
            }
        }
}

/// No two tasks of `u` could still be paired.
pub open spec fn pairing_maximal(u: Seq<Option<TaskRecord>>) -> bool {
    forall|a: int, b: int| 0 <= a < u.len() && 0 <= b < u.len() ==> !#[trigger] can_pair(u, a, b)
}

/// Freeing the finished tasks keeps the table consistent.
pub proof fn lemma_free_pass_ok(t: Seq<Option<TaskRecord>>, se: Seq<bool>, n: nat)
    requires
        pairs_ok(t, n),
        se.len() == n,
    ensures
        pairs_ok(free_pass(t, se), n),
{
    let u = free_pass(t, se);
    assert forall|i: int| 0 <= i < u.len() implies #[trigger] task_ok(u, n, i) by {
        assert(task_ok(t, n, i));
        assert(u[i] == after_free(t, se, i));
        if live(u, i) {
            let r = rec(t, i);
            assert(live(t, i) && !freeable(t, se, i));
            if r.paired && !freeable(t, se, r.pair->0 as int) {
                let j = r.pair->0 as int;
                assert(task_ok(t, n, j));
                assert(u[j] == after_free(t, se, j));
                assert(!freeable(t, se, rec(t, j).pair->0 as int));
                assert(rec(u, j) == rec(t, j));
                assert(rec(u, i) == r);
            }
        }
    }
}

/// Whether task `i` is freeable.
fn is_freeable(t: &Vec<Option<TaskRecord>>, se: &Vec<bool>, i: usize) -> (b: bool)
    requires
        pairs_ok(t@, se@.len() as nat),
        i < t@.len(),
    ensures
        b == freeable(t@, se@, i as int),
{
    proof {
        assert(task_ok(t@, se@.len() as nat, i as int));
    }
    match t[i] {
        None => false,
        Some(r) => r.done && (r.role == TaskRole::Dequeue || !r.assigned || se[r.shard_ind]),
    }
}


/// Giving shards to the enqueuers without one keeps the table consistent.
pub proof fn lemma_assign_seq_ok(t: Seq<Option<TaskRecord>>, next: nat, n: nat)
    requires
        pairs_ok(t, n),
        n > 0,
    ensures
        pairs_ok(assign_seq(t, next, n), n),
{
    let u = assign_seq(t, next, n);
    assert forall|i: int| 0 <= i < u.len() implies #[trigger] task_ok(u, n, i) by {
        assert(task_ok(t, n, i));
        assert(u[i] == after_assign(t, next, n, i));
        if live(t, i) && !unassigned_enq(t, i) && rec(t, i).paired {
            let j = rec(t, i).pair->0 as int;
            assert(task_ok(t, n, j));
            assert(u[j] == after_assign(t, next, n, j));
        }
    }
}

/// Releasing idle dequeuers keeps the table consistent.
pub proof fn lemma_release_pass_ok(t: Seq<Option<TaskRecord>>, se: Seq<bool>, n: nat)
    requires
        pairs_ok(t, n),
    ensures
        pairs_ok(release_pass(t, se), n),
{
    let u = release_pass(t, se);
    assert forall|i: int| 0 <= i < u.len() implies #[trigger] task_ok(u, n, i) by {
        assert(task_ok(t, n, i));
        if live(t, i) && !released(t, se, i) && rec(t, i).paired {
            let j = rec(t, i).pair->0 as int;
            assert(task_ok(t, n, j));
            assert(!released(t, se, j));
            assert(u[j] == t[j]);
        }
    }
}


/// The table `u` after tasks `a` and `b` are paired: the dequeuer takes
/// the enqueuer's shard.
pub open spec fn paired_up(u: Seq<Option<TaskRecord>>, a: int, b: int) -> Seq<Option<TaskRecord>> {
    let e = if rec(u, a).role == TaskRole::Enqueue {
        a
    } else {
        b
    };
    let d = if rec(u, a).role == TaskRole::Enqueue {
        b
    } else {
        a
    };
    u.update(e, Some(TaskRecord { paired: true, pair: Some(d as usize), ..rec(u, e) })).update(
        d,
        Some(
            TaskRecord {
                paired: true,
                pair: Some(e as usize),
                assigned: true,
                shard_ind: rec(u, e).shard_ind,
                ..rec(u, d)
            },
        ),
    )
}

/// `can_pair` does not depend on the order of the two tasks.
pub proof fn lemma_can_pair_symmetric(t: Seq<Option<TaskRecord>>, a: int, b: int)
    ensures
        can_pair(t, a, b) == can_pair(t, b, a),
        can_pair(t, a, b) ==> a != b,
{
}

/// Pairing two tasks that can be paired keeps the table consistent, is a
/// pairing step from where the pass began, and leaves no new pairing
/// possible.
pub proof fn lemma_paired_up(t: Seq<Option<TaskRecord>>, u: Seq<Option<TaskRecord>>, a: int, b: int, n: nat)
    requires
        pairs_ok(u, n),
        pairing_step(t, u),
        can_pair(u, a, b),
    ensures
        pairs_ok(paired_up(u, a, b), n),
        pairing_step(t, paired_up(u, a, b)),
        forall|x: int, y: int| #[trigger] can_pair(paired_up(u, a, b), x, y) ==> can_pair(u, x, y),
        forall|y: int| !#[trigger] can_pair(paired_up(u, a, b), a, y),
{
    let u2 = paired_up(u, a, b);
    let e = if rec(u, a).role == TaskRole::Enqueue {
        a
    } else {
        b
    };
    let d = if rec(u, a).role == TaskRole::Enqueue {
        b
    } else {
        a
    };
    assert(can_pair(u, e, d));
    assert(task_ok(u, n, e));
    assert(task_ok(u, n, d));
    assert(live(t, e) == live(u, e));
    assert(live(t, d) == live(u, d));
    assert(rec(u, e) == rec(t, e));
    assert(rec(u, d) == rec(t, d));
    assert forall|i: int| 0 <= i < u2.len() implies #[trigger] task_ok(u2, n, i) by {
        assert(task_ok(u, n, i));
        if i != e && i != d && live(u, i) && rec(u, i).paired {
            let j = rec(u, i).pair->0 as int;
            assert(task_ok(u, n, j));
        }
    }
    assert forall|i: int| 0 <= i < t.len() implies #[trigger] live(u2, i) == live(t, i) by {
        assert(live(u, i) == live(t, i));
    }
    assert forall|i: int|
        live(t, i) && (rec(t, i).paired || !rec(u2, i).paired) implies #[trigger] rec(u2, i) == rec(
        t,
        i,
    ) by {
        assert(live(u, i) == live(t, i));
        if i != e && i != d {
            assert(rec(u2, i) == rec(u, i));
        }
    }
    assert forall|i: int| live(t, i) && !rec(t, i).paired && #[trigger] rec(u2, i).paired implies {
        let j = rec(u2, i).pair->0 as int;
        &&& can_pair(t, i, j)
        &&& rec(t, i).role == TaskRole::Enqueue ==> rec(u2, i) == TaskRecord {
            paired: true,
            pair: Some(j as usize),
            ..rec(t, i)
        }
        &&& rec(t, i).role == TaskRole::Dequeue ==> rec(u2, i) == TaskRecord {
            paired: true,
            pair: Some(j as usize),
            assigned: true,
            shard_ind: rec(t, j).shard_ind,
            ..rec(t, i)
        }
    } by {
        assert(live(u, i) == live(t, i));
        if i != e && i != d {
            assert(rec(u2, i) == rec(u, i));
        }
    }
    assert forall|x: int, y: int| #[trigger] can_pair(u2, x, y) implies can_pair(u, x, y) by {
        assert(x != e && x != d && y != e && y != d);
    }
}

/// The pairing from `t` to `u` went newest first: a task `i` that got a
/// new partner older than itself took the newest task it could be paired
/// with in `t`, since every task in between that it could have taken was
/// already paired with a task newer than `i`.
pub open spec fn pairing_newest_first(t: Seq<Option<TaskRecord>>, u: Seq<Option<TaskRecord>>) -> bool {
    forall|i: int, k: int|
        live(t, i) && !rec(t, i).paired && rec(u, i).paired && (rec(u, i).pair->0 as int) < k < i
            && #[trigger] can_pair(t, i, k) ==> rec(u, k).paired && rec(u, k).pair->0 as int > i
}

/// Every pair made from `t` to `u` has a task at `lo` or above.
spec fn new_pairs_reach(t: Seq<Option<TaskRecord>>, u: Seq<Option<TaskRecord>>, lo: int) -> bool {
    forall|x: int|
        live(t, x) && !rec(t, x).paired && #[trigger] rec(u, x).paired ==> x >= lo || rec(
            u,
            x,
        ).pair->0 as int >= lo
}

/// Pairing task `c` with the newest task `j` it can be paired with keeps
/// the pairing newest first.
proof fn lemma_newest_step(t: Seq<Option<TaskRecord>>, u: Seq<Option<TaskRecord>>, c: int, j: int)
    requires
        pairing_step(t, u),
        new_pairs_reach(t, u, c + 1),
        pairing_newest_first(t, u),
        can_pair(u, c, j),
        0 <= j < c,
        c < u.len() <= usize::MAX,
        forall|k: int| j < k < c ==> !#[trigger] can_pair(u, c, k),
    ensures
        new_pairs_reach(t, paired_up(u, c, j), c),
        pairing_newest_first(t, paired_up(u, c, j)),
{
    let u2 = paired_up(u, c, j);
    assert(rec(u2, c).paired && rec(u2, c).pair->0 as int == j);
    assert(rec(u2, j).paired && rec(u2, j).pair->0 as int == c);
    assert forall|x: int| x != c && x != j && 0 <= x < u.len() implies #[trigger] rec(u2, x) == rec(u, x) by {
    }
    assert forall|x: int|
        live(t, x) && !rec(t, x).paired && #[trigger] rec(u2, x).paired implies x >= c || rec(
        u2,
        x,
    ).pair->0 as int >= c by {
        if x != c && x != j {
            assert(rec(u2, x) == rec(u, x));
        }
    }
    assert forall|i: int, k: int|
        live(t, i) && !rec(t, i).paired && rec(u2, i).paired && (rec(u2, i).pair->0 as int) < k < i
            && #[trigger] can_pair(t, i, k) implies rec(u2, k).paired && rec(u2, k).pair->0 as int
        > i by {
        assert(live(u, k) == live(t, k));
        assert(live(u, i) == live(t, i));
        if i == c {
            assert(rec(u, c) == rec(t, c));
            if !rec(u, k).paired {
                assert(rec(u, k) == rec(t, k));
                assert(can_pair(u, c, k));
            }
            assert(rec(u2, k) == rec(u, k));
        } else if i != j {
            assert(rec(u2, i) == rec(u, i));
            assert(rec(u, k).paired);
            assert(rec(u2, k) == rec(u, k));
        }
    }
}

/// Whether tasks `a` and `b` can be paired.
fn can_pair_exec(t: &Vec<Option<TaskRecord>>, a: usize, b: usize) -> (r: bool)
    requires
        a < t@.len(),
        b < t@.len(),
    ensures
        r == can_pair(t@, a as int, b as int),
{
    match (t[a], t[b]) {
        (Some(ra), Some(rb)) => {
            !ra.paired && !rb.paired && !(ra.role == rb.role) && (if ra.role == TaskRole::Enqueue {
                ra.assigned && !rb.assigned
            } else {
                !ra.assigned && rb.assigned
            })
        },
        _ => false,
    }
}

/// The newest task older than `c` that can be paired with it.
fn find_partner(t: &Vec<Option<TaskRecord>>, c: usize) -> (r: Option<usize>)
    requires
        c < t@.len(),
    ensures
        r is Some ==> r->0 < c && can_pair(t@, c as int, r->0 as int) && forall|j: int|
            r->0 < j < c ==> !#[trigger] can_pair(t@, c as int, j),
        r is None ==> forall|j: int| 0 <= j < c ==> !#[trigger] can_pair(t@, c as int, j),
{
    let mut j = c;
    while j > 0
        invariant
            j <= c,
            c < t@.len(),
            forall|k: int| j <= k < c ==> !#[trigger] can_pair(t@, c as int, k),
        decreases j,
    {
        if can_pair_exec(t, c, j - 1) {
            return Some(j - 1);
        }
        j = j - 1;
    }
    None
}

/// A finished dequeuer is always freed, whichever shards are empty: its
/// partner enqueuer keeps its shard for a later dequeuer.
pub proof fn law_finished_dequeuer_is_freed(t: Seq<Option<TaskRecord>>, se: Seq<bool>, i: int)
    requires
        live(t, i),
        rec(t, i).done,
        rec(t, i).role == TaskRole::Dequeue,
    ensures
        freeable(t, se, i),
        free_pass(t, se)[i] is None,
{
}

/// Whether two tasks can be paired does not depend on whether they are
/// done: tables that differ only in their done flags pair alike.
pub proof fn law_can_pair_ignores_done(t: Seq<Option<TaskRecord>>, u: Seq<Option<TaskRecord>>, a: int, b: int)
    requires
        u.len() == t.len(),
        forall|i: int| 0 <= i < t.len() ==> #[trigger] live(u, i) == live(t, i),
        forall|i: int|
            live(t, i) ==> #[trigger] rec(u, i) == (TaskRecord { done: rec(u, i).done, ..rec(t, i) }),
    ensures
        can_pair(u, a, b) == can_pair(t, a, b),
{
    if live(t, a) {
        assert(rec(u, a) == TaskRecord { done: rec(u, a).done, ..rec(t, a) });
    }
    if live(t, b) {
        assert(rec(u, b) == TaskRecord { done: rec(u, b).done, ..rec(t, b) });
    }
}

/// What a pass does, stated over the tasks' fields: it frees every finished
/// dequeuer; an assigned enqueuer that is running, or whose shard still
/// holds items, keeps its record and its shard; and afterwards no unpaired
/// enqueuer with a shard is left beside an unpaired dequeuer without one,
/// done or not.
proof fn lemma_pass_facts(
    t: Seq<Option<TaskRecord>>,
    se: Seq<bool>,
    next: nat,
    n: nat,
    u: Seq<Option<TaskRecord>>,
)
    requires
        pairs_ok(t, n),
        se.len() == n,
        pairing_step(release_pass(assign_seq(free_pass(t, se), next, n), se), u),
        pairing_maximal(u),
    ensures
        forall|x: int|
            #![trigger rec(t, x)]
            live(t, x) && rec(t, x).done && rec(t, x).role == TaskRole::Dequeue ==> freeable(t, se, x)
                && !live(u, x),
        forall|i: int|
            #![trigger rec(u, i)]
            live(t, i) && rec(t, i).role == TaskRole::Enqueue && rec(t, i).assigned && (!rec(
                t,
                i,
            ).done || !se[rec(t, i).shard_ind as int]) ==> live(u, i) && rec(u, i).assigned && rec(
                u,
                i,
            ).shard_ind == rec(t, i).shard_ind,
        forall|a: int, b: int|
            #![trigger rec(u, a), rec(u, b)]
            live(u, a) && live(u, b) && rec(u, a).role == TaskRole::Enqueue && rec(u, a).assigned
                && !rec(u, a).paired && rec(u, b).role == TaskRole::Dequeue && !rec(u, b).assigned
                && !rec(u, b).paired ==> false,
{
    let t1 = free_pass(t, se);
    let t2 = assign_seq(t1, next, n);
    let t3 = release_pass(t2, se);
    assert forall|x: int|
        #![trigger rec(t, x)]
        live(t, x) && rec(t, x).done && rec(t, x).role == TaskRole::Dequeue implies freeable(t, se, x)
        && !live(u, x) by {
        assert(t1[x] == after_free(t, se, x));
        assert(t2[x] == after_assign(t1, next, n, x));
        assert(t3[x] == (if released(t2, se, x) {
            Some(TaskRecord { assigned: false, ..rec(t2, x) })
        } else {
            t2[x]
        }));
        assert(live(u, x) == live(t3, x));
    }
    assert forall|i: int|
        #![trigger rec(u, i)]
        live(t, i) && rec(t, i).role == TaskRole::Enqueue && rec(t, i).assigned && (!rec(t, i).done
            || !se[rec(t, i).shard_ind as int]) implies live(u, i) && rec(u, i).assigned && rec(
        u,
        i,
    ).shard_ind == rec(t, i).shard_ind by {
        assert(t1[i] == after_free(t, se, i));
        assert(t2[i] == after_assign(t1, next, n, i));
        assert(t3[i] == (if released(t2, se, i) {
            Some(TaskRecord { assigned: false, ..rec(t2, i) })
        } else {
            t2[i]
        }));
        assert(live(u, i) == live(t3, i));
        if rec(t3, i).paired || !rec(u, i).paired {
            assert(rec(u, i) == rec(t3, i));
        }
    }
    assert forall|a: int, b: int|
        #![trigger rec(u, a), rec(u, b)]
        live(u, a) && live(u, b) && rec(u, a).role == TaskRole::Enqueue && rec(u, a).assigned
            && !rec(u, a).paired && rec(u, b).role == TaskRole::Dequeue && !rec(u, b).assigned
            && !rec(u, b).paired implies false by {
        assert(can_pair(u, a, b));
    }
}

/// After a pass every enqueuer that still has a record has a shard.
pub proof fn lemma_pass_assigns_enqueuers(
    t: Seq<Option<TaskRecord>>,
    se: Seq<bool>,
    next: nat,
    n: nat,
    u: Seq<Option<TaskRecord>>,
)
    requires
        pairing_step(release_pass(assign_seq(free_pass(t, se), next, n), se), u),
    ensures
        forall|i: int|
            #![trigger rec(u, i)]
            live(u, i) && rec(u, i).role == TaskRole::Enqueue ==> rec(u, i).assigned,
{
    let t1 = free_pass(t, se);
    let t2 = assign_seq(t1, next, n);
    let t3 = release_pass(t2, se);
    assert forall|i: int| #![trigger rec(u, i)] live(u, i) && rec(u, i).role == TaskRole::Enqueue implies rec(
        u,
        i,
    ).assigned by {
        assert(live(t3, i));
        assert(t3[i] == (if released(t2, se, i) {
            Some(TaskRecord { assigned: false, ..rec(t2, i) })
        } else {
            t2[i]
        }));
        assert(t2[i] == after_assign(t1, next, n, i));
        if rec(t3, i).paired || !rec(u, i).paired {
            assert(rec(u, i) == rec(t3, i));
        }
    }
}

/// The tasks of the CFT policy and the assigner's own state.
pub struct AssignerState {
    tasks: Vec<Option<TaskRecord>>,
    next_shard: usize,
    num_shards: usize,
    running: bool,
    terminate: bool,
}

impl AssignerState {
    /// The task table, indexed by task id.
    pub closed spec fn tasks_spec(&self) -> Seq<Option<TaskRecord>> {
        self.tasks@
    }

    /// The shard the next enqueuer without a shard gets.
    pub closed spec fn next_shard_spec(&self) -> nat {
        self.next_shard as nat
    }

    /// The number of shards of the buffer.
    pub closed spec fn num_shards_spec(&self) -> nat {
        self.num_shards as nat
    }

    /// Whether an assigner task is running.
    pub closed spec fn running_spec(&self) -> bool {
        self.running
    }

    /// Whether the assigner task was asked to stop.
    pub closed spec fn terminate_spec(&self) -> bool {
        self.terminate
    }

    /// The state's invariant: a valid next shard, and consistent tasks.
    pub open spec fn wf(&self) -> bool {
        &&& self.num_shards_spec() > 0
        &&& self.next_shard_spec() < self.num_shards_spec()
        &&& pairs_ok(self.tasks_spec(), self.num_shards_spec())
    }

    /// A state for a buffer of `num_shards` shards, with no task and no
    /// assigner running.
    pub fn new(num_shards: usize) -> (s: Self)
        requires
            num_shards > 0,
        ensures
            s.wf(),
            s.tasks_spec().len() == 0,
            s.next_shard_spec() == 0,
            s.num_shards_spec() == num_shards,
            !s.running_spec(),
            !s.terminate_spec(),
    {
        AssignerState {
            tasks: Vec::new(),
            next_shard: 0,
            num_shards,
            running: false,
            terminate: false,
        }
    }

    /// Marks an assigner task as running; `false` if one already is.
    pub fn start(&mut self) -> (started: bool)
        requires
            old(self).wf(),
        ensures
            final(self).wf(),
            started == !old(self).running_spec(),
            final(self).running_spec(),
            started ==> !final(self).terminate_spec(),
            !started ==> final(self).terminate_spec() == old(self).terminate_spec(),
            final(self).tasks_spec() == old(self).tasks_spec(),
            final(self).next_shard_spec() == old(self).next_shard_spec(),
            final(self).num_shards_spec() == old(self).num_shards_spec(),
    {
        if self.running {
            return false;
        }
        self.running = true;
        self.terminate = false;
        true
    }

    /// Whether an assigner task is running.
    pub fn is_running(&self) -> (b: bool)
        ensures
            b == self.running_spec(),
    {
        self.running
    }

    /// The number of shards of the buffer.
    pub fn num_shards(&self) -> (n: usize)
        ensures
            n == self.num_shards_spec(),
    {
        self.num_shards
    }

    /// The number of task ids given out so far.
    pub fn task_count(&self) -> (n: usize)
        ensures
            n == self.tasks_spec().len(),
    {
        self.tasks.len()
    }

    /// Asks the assigner task to stop after its current pass.
    pub fn request_termination(&mut self)
        requires
            old(self).wf(),
        ensures
            final(self).wf(),
            final(self).terminate_spec(),
            final(self).running_spec() == old(self).running_spec(),
            final(self).tasks_spec() == old(self).tasks_spec(),
            final(self).next_shard_spec() == old(self).next_shard_spec(),
            final(self).num_shards_spec() == old(self).num_shards_spec(),
    {
        self.terminate = true;
    }

    /// Whether the assigner task was asked to stop.
    pub fn termination_requested(&self) -> (b: bool)
        ensures
            b == self.terminate_spec(),
    {
        self.terminate
    }

    /// Registers a task of the given role and returns its id: it has no
    /// shard, no partner, and is not done.
    pub fn register(&mut self, role: TaskRole) -> (id: usize)
        requires
            old(self).wf(),
            old(self).tasks_spec().len() < usize::MAX,
        ensures
            final(self).wf(),
            id == old(self).tasks_spec().len(),
            final(self).tasks_spec() == old(self).tasks_spec().push(
                Some(
                    TaskRecord {
                        role,
                        shard_ind: usize::MAX,
                        done: false,
                        paired: false,
                        assigned: false,
                        pair: None,
                    },
                ),
            ),
            final(self).next_shard_spec() == old(self).next_shard_spec(),
            final(self).num_shards_spec() == old(self).num_shards_spec(),
            final(self).running_spec() == old(self).running_spec(),
            final(self).terminate_spec() == old(self).terminate_spec(),
    {
        let id = self.tasks.len();
        let r = TaskRecord {
            role,
            shard_ind: usize::MAX,
            done: false,
            paired: false,
            assigned: false,
            pair: None,
        };
        let ghost t = self.tasks@;
        self.tasks.push(Some(r));
        proof {
            let n = self.num_shards as nat;
            assert forall|i: int| 0 <= i < self.tasks@.len() implies #[trigger] task_ok(
                self.tasks@,
                n,
                i,
            ) by {
                if i < t.len() {
                    assert(task_ok(t, n, i));
                    if live(t, i) && rec(t, i).paired {
                        assert(task_ok(t, n, rec(t, i).pair->0 as int));
                    }
                }
            }
        }
        id
    }

    /// The record of task `id`, if it has one.
    pub fn task(&self, id: usize) -> (r: Option<TaskRecord>)
        ensures
            id < self.tasks_spec().len() ==> r == self.tasks_spec()[id as int],
            id >= self.tasks_spec().len() ==> r is None,
    {
        if id < self.tasks.len() {
            self.tasks[id]
        } else {
            None
        }
    }

    /// The most recently registered task that still has a record.
    pub fn get_head(&self) -> (h: Option<usize>)
        ensures
            h is Some ==> live(self.tasks_spec(), h->0 as int) && forall|j: int|
                h->0 < j < self.tasks_spec().len() ==> !#[trigger] live(self.tasks_spec(), j),
            h is None ==> forall|j: int|
                0 <= j < self.tasks_spec().len() ==> !#[trigger] live(self.tasks_spec(), j),
    {
        let mut k = self.tasks.len();
        while k > 0
            invariant
                k <= self.tasks@.len(),
                forall|j: int| k <= j < self.tasks@.len() ==> !#[trigger] live(self.tasks@, j),
            decreases k,
        {
            if self.tasks[k - 1].is_some() {
                return Some(k - 1);
            }
            k = k - 1;
        }
        None
    }

    /// Task `id` says that it has finished.
    pub fn mark_done(&mut self, id: usize)
        requires
            old(self).wf(),
        ensures
            final(self).wf(),
            final(self).tasks_spec().len() == old(self).tasks_spec().len(),
            live(old(self).tasks_spec(), id as int) ==> final(self).tasks_spec() == old(
                self,
            ).tasks_spec().update(
                id as int,
                Some(TaskRecord { done: true, ..rec(old(self).tasks_spec(), id as int) }),
            ),
            !live(old(self).tasks_spec(), id as int) ==> final(self).tasks_spec() == old(
                self,
            ).tasks_spec(),
            final(self).next_shard_spec() == old(self).next_shard_spec(),
            final(self).num_shards_spec() == old(self).num_shards_spec(),
            final(self).running_spec() == old(self).running_spec(),
            final(self).terminate_spec() == old(self).terminate_spec(),
    {
        if id < self.tasks.len() {
            if let Some(r) = self.tasks[id] {
                let ghost t = self.tasks@;
                self.tasks.set(id, Some(TaskRecord { done: true, ..r }));
                proof {
                    let n = self.num_shards as nat;
                    assert forall|i: int| 0 <= i < self.tasks@.len() implies #[trigger] task_ok(
                        self.tasks@,
                        n,
                        i,
                    ) by {
                        assert(task_ok(t, n, i));
                        if live(t, i) && rec(t, i).paired {
                            assert(task_ok(t, n, rec(t, i).pair->0 as int));
                        }
                    }
                }
            }
        }
    }

    /// Frees the finished tasks (see `free_pass`) and returns their ids, in
    /// increasing order.
    fn free_finished(&mut self, se: &Vec<bool>) -> (freed: Vec<usize>)
        requires
            old(self).wf(),
            se@.len() == old(self).num_shards_spec(),
        ensures
            final(self).wf(),
            final(self).tasks_spec() == free_pass(old(self).tasks_spec(), se@),
            forall|x: int|
                0 <= x < old(self).tasks_spec().len() ==> (freed@.contains(x as usize) <==> freeable(
                    old(self).tasks_spec(),
                    se@,
                    x,
                )),
            forall|k: int| 0 <= k < freed@.len() ==> #[trigger] freed@[k] < old(self).tasks_spec().len(),
            forall|k: int, l: int| 0 <= k < l < freed@.len() ==> freed@[k] < freed@[l],
            final(self).next_shard_spec() == old(self).next_shard_spec(),
            final(self).num_shards_spec() == old(self).num_shards_spec(),
            final(self).running_spec() == old(self).running_spec(),
            final(self).terminate_spec() == old(self).terminate_spec(),
    {
        let ghost t = self.tasks@;
        let len = self.tasks.len();
        let mut fr: Vec<bool> = Vec::with_capacity(len);
        let mut i: usize = 0;
        while i < len
            invariant
                i <= len,
                len == t.len(),
                self.tasks@ == t,
                pairs_ok(t, se@.len() as nat),
                fr@.len() == i,
                forall|k: int| 0 <= k < i ==> #[trigger] fr@[k] == freeable(t, se@, k),
            decreases len - i,
        {
            let b = is_freeable(&self.tasks, se, i);
            fr.push(b);
            i = i + 1;
        }
        let mut new_tasks: Vec<Option<TaskRecord>> = Vec::with_capacity(len);
        let mut freed: Vec<usize> = Vec::new();
        let mut i: usize = 0;
        while i < len
            invariant
                i <= len,
                len == t.len(),
                self.tasks@ == t,
                pairs_ok(t, se@.len() as nat),
                fr@.len() == len,
                forall|k: int| 0 <= k < len ==> #[trigger] fr@[k] == freeable(t, se@, k),
                new_tasks@.len() == i,
                forall|k: int| 0 <= k < i ==> #[trigger] new_tasks@[k] == after_free(t, se@, k),
                forall|x: int|
                    0 <= x < len ==> (freed@.contains(x as usize) <==> (x < i && freeable(t, se@, x))),
                forall|k: int| 0 <= k < freed@.len() ==> #[trigger] freed@[k] < i,
                forall|k: int, l: int| 0 <= k < l < freed@.len() ==> freed@[k] < freed@[l],
            decreases len - i,
        {
            proof {
                assert(task_ok(t, se@.len() as nat, i as int));
            }
            let ghost old_freed = freed@;
            let v = match self.tasks[i] {
                None => None,
                Some(r) => {
                    if fr[i] {
                        freed.push(i);
                        None
                    } else {
                        let partner_freed = match r.pair {
                            None => false,
                            Some(p) => fr[p],
                        };
                        if r.paired && partner_freed {
                            Some(
                                TaskRecord {
                                    paired: false,
                                    pair: None,
                                    assigned: r.role == TaskRole::Enqueue && r.assigned,
                                    ..r
                                },
                            )
                        } else {
                            Some(r)
                        }
                    }
                },
            };
            new_tasks.push(v);
            proof {
                assert forall|x: int|
                    0 <= x < len implies (freed@.contains(x as usize) <==> (x < i + 1 && freeable(
                        t,
                        se@,
                        x,
                    ))) by {
                    if freed@ != old_freed {
                        assert(freed@ == old_freed.push(i));
                        if x == i {
                            assert(freed@[old_freed.len() as int] == i);
                        } else if old_freed.contains(x as usize) {
                            let k = choose|k: int|
                                0 <= k < old_freed.len() && old_freed[k] == x as usize;
                            assert(freed@[k] == x as usize);
                        } else if freed@.contains(x as usize) {
                            let k = choose|k: int| 0 <= k < freed@.len() && freed@[k] == x as usize;
                            if k < old_freed.len() {
                                assert(old_freed[k] == x as usize);
                            }
                        }
                    } else if x == i && freed@.contains(x as usize) {
                        let k = choose|k: int| 0 <= k < freed@.len() && freed@[k] == x as usize;
                        assert(freed@[k] < i);
                    }
                }
            }
            i = i + 1;
        }
        proof {
            assert(new_tasks@ == free_pass(t, se@));
            lemma_free_pass_ok(t, se@, se@.len() as nat);
        }
        self.tasks = new_tasks;
        freed
    }

    /// Gives each enqueuer without a shard the next shard round-robin,
    /// newest task first (see `assign_seq`).
    fn assign_enqueuers(&mut self)
        requires
            old(self).wf(),
        ensures
            final(self).wf(),
            final(self).tasks_spec() == assign_seq(
                old(self).tasks_spec(),
                old(self).next_shard_spec(),
                old(self).num_shards_spec(),
            ),
            final(self).next_shard_spec() == (old(self).next_shard_spec() + pending(
                old(self).tasks_spec(),
                0,
                old(self).tasks_spec().len() as int,
            )) % old(self).num_shards_spec(),
            final(self).num_shards_spec() == old(self).num_shards_spec(),
            final(self).running_spec() == old(self).running_spec(),
            final(self).terminate_spec() == old(self).terminate_spec(),
    {
        let ghost t = self.tasks@;
        let ghost next0 = self.next_shard as nat;
        let n = self.num_shards;
        let mut k = self.tasks.len();
        let mut cur = self.next_shard;
        proof {
            vstd::arithmetic::div_mod::lemma_small_mod(next0, n as nat);
        }
        while k > 0
            invariant
                k <= t.len(),
                self.tasks@.len() == t.len(),
                n == self.num_shards,
                n > 0,
                next0 == old(self).next_shard_spec(),
                next0 < n,
                t == old(self).tasks_spec(),
                self.next_shard == old(self).next_shard,
                self.running == old(self).running,
                self.terminate == old(self).terminate,
                forall|i: int|
                    k <= i < t.len() ==> #[trigger] self.tasks@[i] == after_assign(t, next0, n as nat, i),
                forall|i: int| 0 <= i < k ==> #[trigger] self.tasks@[i] == t[i],
                cur < n,
                cur as nat == (next0 + pending(t, k as int, t.len() as int)) % (n as nat),
            decreases k,
        {
            let i = k - 1;
            assert(self.tasks@[i as int] == t[i as int]);
            if let Some(r) = self.tasks[i] {
                if r.role == TaskRole::Enqueue && !r.assigned {
                    self.tasks.set(i, Some(TaskRecord { shard_ind: cur, assigned: true, ..r }));
                    proof {
                        let a = next0 + pending(t, k as int, t.len() as int);
                        vstd::arithmetic::div_mod::lemma_add_mod_noop_right(1, a as int, n as int);
                        assert(pending(t, i as int, t.len() as int) == pending(t, k as int, t.len() as int) + 1);
                    }
                    cur = (cur + 1) % n;
                }
            }
            k = i;
        }
        self.next_shard = cur;
        proof {
            assert(pending(t, 0, t.len() as int) == pending(t, k as int, t.len() as int));
            assert(self.tasks@ == assign_seq(t, next0, n as nat));
            lemma_assign_seq_ok(t, next0, n as nat);
        }
    }

    /// Releases the idle dequeuers (see `release_pass`).
    fn release_idle(&mut self, se: &Vec<bool>)
        requires
            old(self).wf(),
            se@.len() == old(self).num_shards_spec(),
        ensures
            final(self).wf(),
            final(self).tasks_spec() == release_pass(old(self).tasks_spec(), se@),
            final(self).next_shard_spec() == old(self).next_shard_spec(),
            final(self).num_shards_spec() == old(self).num_shards_spec(),
            final(self).running_spec() == old(self).running_spec(),
            final(self).terminate_spec() == old(self).terminate_spec(),
    {
        let ghost t = self.tasks@;
        let len = self.tasks.len();
        let mut new_tasks: Vec<Option<TaskRecord>> = Vec::with_capacity(len);
        let mut i: usize = 0;
        while i < len
            invariant
                i <= len,
                len == t.len(),
                self.tasks@ == t,
                pairs_ok(t, se@.len() as nat),
                new_tasks@.len() == i,
                forall|k: int|
                    0 <= k < i ==> #[trigger] new_tasks@[k] == release_pass(t, se@)[k],
            decreases len - i,
        {
            proof {
                assert(task_ok(t, se@.len() as nat, i as int));
            }
            let v = match self.tasks[i] {
                None => None,
                Some(r) => {
                    if r.role == TaskRole::Dequeue && r.assigned && !r.paired && se[r.shard_ind] {
                        Some(TaskRecord { assigned: false, ..r })
                    } else {
                        Some(r)
                    }
                },
            };
            new_tasks.push(v);
            i = i + 1;
        }
        proof {
            assert(new_tasks@ == release_pass(t, se@));
            lemma_release_pass_ok(t, se@, se@.len() as nat);
        }
        self.tasks = new_tasks;
    }

    /// Pairs the tasks, newest first: each task that can take a partner is
    /// paired with the newest older task it can be paired with.
    fn pair_tasks(&mut self)
        requires
            old(self).wf(),
        ensures
            final(self).wf(),
            pairing_step(old(self).tasks_spec(), final(self).tasks_spec()),
            pairing_newest_first(old(self).tasks_spec(), final(self).tasks_spec()),
            pairing_maximal(final(self).tasks_spec()),
            final(self).next_shard_spec() == old(self).next_shard_spec(),
            final(self).num_shards_spec() == old(self).num_shards_spec(),
            final(self).running_spec() == old(self).running_spec(),
            final(self).terminate_spec() == old(self).terminate_spec(),
    {
        let ghost t = self.tasks@;
        let ghost n = self.num_shards as nat;
        let len = self.tasks.len();
        let mut k = len;
        while k > 0
            invariant
                k <= len,
                len == t.len(),
                t == old(self).tasks_spec(),
                self.tasks@.len() == len,
                n == self.num_shards,
                self.num_shards == old(self).num_shards,
                self.next_shard == old(self).next_shard,
                self.running == old(self).running,
                self.terminate == old(self).terminate,
                pairs_ok(self.tasks@, n),
                pairing_step(t, self.tasks@),
                new_pairs_reach(t, self.tasks@, k as int),
                pairing_newest_first(t, self.tasks@),
                forall|c: int, j: int|
                    k <= c < len && 0 <= j < c ==> !#[trigger] can_pair(self.tasks@, c, j),
            decreases k,
        {
            let c = k - 1;
            match find_partner(&self.tasks, c) {
                None => {},
                Some(j) => {
                    let ghost u = self.tasks@;
                    proof {
                        lemma_paired_up(t, u, c as int, j as int, n);
                        lemma_newest_step(t, u, c as int, j as int);
                    }
                    let rc = self.tasks[c].unwrap();
                    let rj = self.tasks[j].unwrap();
                    let (e, d, re, rd) = if rc.role == TaskRole::Enqueue {
                        (c, j, rc, rj)
                    } else {
                        (j, c, rj, rc)
                    };
                    self.tasks.set(e, Some(TaskRecord { paired: true, pair: Some(d), ..re }));
                    self.tasks.set(
                        d,
                        Some(
                            TaskRecord {
                                paired: true,
                                pair: Some(e),
                                assigned: true,
                                shard_ind: re.shard_ind,
                                ..rd
                            },
                        ),
                    );
                    assert(self.tasks@ == paired_up(u, c as int, j as int));
                },
            }
            k = c;
        }
        proof {
            assert forall|a: int, b: int|
                0 <= a < self.tasks@.len() && 0 <= b < self.tasks@.len() implies !#[trigger] can_pair(
                self.tasks@,
                a,
                b,
            ) by {
                lemma_can_pair_symmetric(self.tasks@, a, b);
                if a < b {
                    assert(!can_pair(self.tasks@, b, a));
                }
            }
        }
    }

    /// One pass of the assigner over the tasks, given which shards are
    /// empty: it frees the finished tasks (`free_pass`) and returns their
    /// ids; gives each enqueuer without a shard the next shard round-robin
    /// (`assign_seq`); releases the idle dequeuers (`release_pass`); and
    /// pairs the tasks that can be paired (`pairing_step`), until no two
    /// tasks can be paired any more.
    pub fn assign_pass(&mut self, shard_empty: &Vec<bool>) -> (freed: Vec<usize>)
        requires
            old(self).wf(),
            shard_empty@.len() == old(self).num_shards_spec(),
        ensures
            final(self).wf(),
            forall|x: int|
                0 <= x < old(self).tasks_spec().len() ==> (freed@.contains(x as usize) <==> freeable(
                    old(self).tasks_spec(),
                    shard_empty@,
                    x,
                )),
            forall|k: int| 0 <= k < freed@.len() ==> #[trigger] freed@[k] < old(self).tasks_spec().len(),
            forall|k: int, l: int| 0 <= k < l < freed@.len() ==> freed@[k] < freed@[l],
            final(self).next_shard_spec() == (old(self).next_shard_spec() + pending(
                free_pass(old(self).tasks_spec(), shard_empty@),
                0,
                old(self).tasks_spec().len() as int,
            )) % old(self).num_shards_spec(),
            pairing_step(
                release_pass(
                    assign_seq(
                        free_pass(old(self).tasks_spec(), shard_empty@),
                        old(self).next_shard_spec(),
                        old(self).num_shards_spec(),
                    ),
                    shard_empty@,
                ),
                final(self).tasks_spec(),
            ),
            pairing_newest_first(
                release_pass(
                    assign_seq(
                        free_pass(old(self).tasks_spec(), shard_empty@),
                        old(self).next_shard_spec(),
                        old(self).num_shards_spec(),
                    ),
                    shard_empty@,
                ),
                final(self).tasks_spec(),
            ),
            pairing_maximal(final(self).tasks_spec()),
            forall|i: int|
                #![trigger rec(final(self).tasks_spec(), i)]
                live(final(self).tasks_spec(), i) && rec(final(self).tasks_spec(), i).role
                    == TaskRole::Enqueue ==> rec(final(self).tasks_spec(), i).assigned,
            forall|x: int|
                #![trigger rec(old(self).tasks_spec(), x)]
                live(old(self).tasks_spec(), x) && rec(old(self).tasks_spec(), x).done && rec(
                    old(self).tasks_spec(),
                    x,
                ).role == TaskRole::Dequeue ==> freed@.contains(x as usize) && !live(
                    final(self).tasks_spec(),
                    x,
                ),
            forall|i: int|
                #![trigger rec(final(self).tasks_spec(), i)]
                live(old(self).tasks_spec(), i) && rec(old(self).tasks_spec(), i).role
                    == TaskRole::Enqueue && rec(old(self).tasks_spec(), i).assigned && (!rec(
                    old(self).tasks_spec(),
                    i,
                ).done || !shard_empty@[rec(old(self).tasks_spec(), i).shard_ind as int]) ==> live(
                    final(self).tasks_spec(),
                    i,
                ) && rec(final(self).tasks_spec(), i).assigned && rec(final(self).tasks_spec(), i).shard_ind
                    == rec(old(self).tasks_spec(), i).shard_ind,
            forall|a: int, b: int|
                #![trigger rec(final(self).tasks_spec(), a), rec(final(self).tasks_spec(), b)]
                live(final(self).tasks_spec(), a) && live(final(self).tasks_spec(), b) && rec(
                    final(self).tasks_spec(),
                    a,
                ).role == TaskRole::Enqueue && rec(final(self).tasks_spec(), a).assigned && !rec(
                    final(self).tasks_spec(),
                    a,
                ).paired && rec(final(self).tasks_spec(), b).role == TaskRole::Dequeue && !rec(
                    final(self).tasks_spec(),
                    b,
                ).assigned && !rec(final(self).tasks_spec(), b).paired ==> false,
            final(self).num_shards_spec() == old(self).num_shards_spec(),
            final(self).running_spec() == old(self).running_spec(),
            final(self).terminate_spec() == old(self).terminate_spec(),
    {
        let ghost t = self.tasks@;
        let ghost next = self.next_shard as nat;
        let freed = self.free_finished(shard_empty);
        self.assign_enqueuers();
        self.release_idle(shard_empty);
        self.pair_tasks();
        proof {
            lemma_pass_assigns_enqueuers(t, shard_empty@, next, self.num_shards as nat, self.tasks@);
            lemma_pass_facts(t, shard_empty@, next, self.num_shards as nat, self.tasks@);
            assert forall|x: int|
                #![trigger rec(t, x)]
                live(t, x) && rec(t, x).done && rec(t, x).role == TaskRole::Dequeue implies freed@.contains(
                    x as usize,
                ) by {
                assert(freeable(t, shard_empty@, x));
            }
        }
        freed
    }

    /// Ends the assigner: frees every task's record, returns their ids in
    /// increasing order, and lets a new assigner start.
    pub fn terminate(&mut self) -> (freed: Vec<usize>)
        requires
            old(self).wf(),
        ensures
            final(self).wf(),
            final(self).tasks_spec().len() == old(self).tasks_spec().len(),
            forall|i: int| 0 <= i < final(self).tasks_spec().len() ==> !#[trigger] live(
                final(self).tasks_spec(),
                i,
            ),
            forall|x: int|
                0 <= x < old(self).tasks_spec().len() ==> (freed@.contains(x as usize) <==> live(
                    old(self).tasks_spec(),
                    x,
                )),
            forall|k: int| 0 <= k < freed@.len() ==> #[trigger] freed@[k] < old(self).tasks_spec().len(),
            forall|k: int, l: int| 0 <= k < l < freed@.len() ==> freed@[k] < freed@[l],
            !final(self).running_spec(),
            !final(self).terminate_spec(),
            final(self).next_shard_spec() == old(self).next_shard_spec(),
            final(self).num_shards_spec() == old(self).num_shards_spec(),
    {
        let ghost t = self.tasks@;
        let len = self.tasks.len();
        let mut new_tasks: Vec<Option<TaskRecord>> = Vec::with_capacity(len);
        let mut freed: Vec<usize> = Vec::new();
        let mut i: usize = 0;
        while i < len
            invariant
                i <= len,
                len == t.len(),
                self.tasks@ == t,
                new_tasks@.len() == i,
                forall|k: int| 0 <= k < i ==> #[trigger] new_tasks@[k] is None,
                forall|x: int|
                    0 <= x < len ==> (freed@.contains(x as usize) <==> (x < i && live(t, x))),
                forall|k: int| 0 <= k < freed@.len() ==> #[trigger] freed@[k] < i,
                forall|k: int, l: int| 0 <= k < l < freed@.len() ==> freed@[k] < freed@[l],
            decreases len - i,
        {
            let ghost old_freed = freed@;
            if self.tasks[i].is_some() {
                freed.push(i);
            }
            new_tasks.push(None);
            proof {
                assert forall|x: int|
                    0 <= x < len implies (freed@.contains(x as usize) <==> (x < i + 1 && live(t, x))) by {
                    if freed@ != old_freed {
                        if x == i {
                            assert(freed@[old_freed.len() as int] == i);
                        } else if old_freed.contains(x as usize) {
                            let k = choose|k: int|
                                0 <= k < old_freed.len() && old_freed[k] == x as usize;
                            assert(freed@[k] == x as usize);
                        } else if freed@.contains(x as usize) {
                            let k = choose|k: int| 0 <= k < freed@.len() && freed@[k] == x as usize;
                            if k < old_freed.len() {
                                assert(old_freed[k] == x as usize);
                            }
                        }
                    } else if x == i && freed@.contains(x as usize) {
                        let k = choose|k: int| 0 <= k < freed@.len() && freed@[k] == x as usize;
                        assert(freed@[k] < i);
                    }
                }
            }
            i = i + 1;
        }
        self.tasks = new_tasks;
        self.running = false;
        self.terminate = false;
        proof {
            assert forall|k: int| 0 <= k < self.tasks@.len() implies #[trigger] task_ok(
                self.tasks@,
                self.num_shards as nat,
                k,
            ) by {
                assert(self.tasks@[k] is None);
            }
        }
        freed
    }
}

/// Asks the assigner task that works on `state` to stop: its next pass ends
/// it (see `AssignerState::terminate`).
pub fn terminate_assigner(state: &mut AssignerState)
    requires
        old(state).wf(),
    ensures
        final(state).wf(),
        final(state).terminate_spec(),
        final(state).running_spec() == old(state).running_spec(),
        final(state).tasks_spec() == old(state).tasks_spec(),
        final(state).next_shard_spec() == old(state).next_shard_spec(),
        final(state).num_shards_spec() == old(state).num_shards_spec(),
{
    state.request_termination();
}

} // verus!
