//! The set of watched timetables that the bot serves, and the observer's
//! decisions: which workers to stop, which to start, and what a worker's end
//! means for the next round.
use vstd::prelude::*;
use crate::work::TaskInfo;

verus! {

/// The watched timetables and the bot token.
pub struct BotService {
    pub whitelist: Vec<TaskInfo>,
    pub token: String,
}

/// The task ids of `current` that no worker runs yet, each id once, in the
/// order of its first occurrence.
pub open spec fn ids_to_start(running: Seq<u128>, current: Seq<u128>) -> Seq<u128>
    decreases current.len(),
{
    if current.len() == 0 {
        Seq::empty()
    } else {
        let x = current.last();
        ids_to_start(running, current.drop_last()) + if !running.contains(x)
            && !current.drop_last().contains(x) {
            seq![x]
        } else {
            Seq::empty()
        }
    }
}

fn contains_id(v: &Vec<u128>, x: u128, upto: usize) -> (r: bool)
    requires
        upto <= v.len(),
    ensures
        r == v@.take(upto as int).contains(x),
{
    for i in 0..upto
        invariant
            upto <= v.len(),
            forall|j: int| 0 <= j < i ==> v@[j] != x,
    {
        if v[i] == x {
            proof {
                assert(v@.take(upto as int)[i as int] == x);
            }
            return true;
        }
    }
    proof {
        assert forall|j: int| 0 <= j < v@.take(upto as int).len() implies v@.take(upto as int)[j] != x by {
            assert(v@.take(upto as int)[j] == v@[j]);
        }
    }
    false
}

/// What the observer does with the tasks it finds in the database: the
/// running workers whose task is gone are stopped (`r.0`, in the order of
/// `running`), and a worker is started for each task that none runs (`r.1`,
/// indices into `current` of the first occurrence of each such id).
pub fn plan_workers(running: &Vec<u128>, current: &Vec<u128>) -> (r: (Vec<u128>, Vec<usize>))
    ensures
        r.0@ == running@.filter(|x: u128| !current@.contains(x)),
        forall|k: int| 0 <= k < r.1.len() ==> r.1@[k] < current.len(),
        r.1@.map_values(|j: usize| current@[j as int]) == ids_to_start(running@, current@),
{
    let mut stop: Vec<u128> = Vec::new();
    let ghost keep_gone = |x: u128| !current@.contains(x);
    let n = running.len();
    for i in 0..n
        invariant
            n == running.len(),
            stop@ == running@.take(i as int).filter(keep_gone),
            keep_gone == (|x: u128| !current@.contains(x)),
    {
        proof {
            assert(running@.take(i + 1) =~= running@.take(i as int).push(running@[i as int]));
            running@.take(i as int).lemma_filter_push(running@[i as int], keep_gone);
            assert(current@.take(current.len() as int) =~= current@);
        }
        if !contains_id(current, running[i], current.len()) {
            stop.push(running[i]);
        }
    }
    proof {
        assert(running@.take(n as int) =~= running@);
    }
    let mut start: Vec<usize> = Vec::new();
    let m = current.len();
    for j in 0..m
        invariant
            m == current.len(),
            forall|k: int| 0 <= k < start.len() ==> start@[k] < j,
            start@.map_values(|i: usize| current@[i as int]) == ids_to_start(running@, current@.take(j as int)),
    {
        let ghost before = start@.map_values(|i: usize| current@[i as int]);
        let x = current[j];
        proof {
            let t = current@.take(j + 1);
            assert(t.drop_last() =~= current@.take(j as int));
            assert(t.last() == x);
            assert(running@.take(running@.len() as int) =~= running@);
        }
        if !contains_id(running, x, running.len()) && !contains_id(current, x, j) {
            start.push(j);
            proof {
                assert(start@.map_values(|i: usize| current@[i as int]) =~= before.push(x));
            }
        } else {
            proof {
                assert(before + Seq::<u128>::empty() =~= before);
            }
        }
    }
    proof {
        assert(current@.take(m as int) =~= current@);
    }
    (stop, start)
}

/// How a worker's run ended.
#[derive(Clone, Copy, Debug, PartialEq, Eq, Structural)]
pub enum WorkerOutcome {
    /// The worker of the task with this id returned an error.
    Failed(u128),
    /// The worker panicked.
    Panicked,
    /// The worker was stopped.
    Cancelled,
}

/// The running workers after one has ended, and whether to shorten the wait
/// before the next round to 2 s: a failed worker is dropped from the running
/// set, so that the next round starts it again; a failure or a panic shortens
/// the wait, a stop does not.
pub fn after_worker_end(running: Vec<u128>, outcome: WorkerOutcome) -> (r: (Vec<u128>, bool))
    ensures
        r.0@ == match outcome {
            WorkerOutcome::Failed(id) => running@.filter(|x: u128| x != id),
            _ => running@,
        },
        r.1 == !(outcome is Cancelled),
{
    match outcome {
        WorkerOutcome::Failed(id) => {
            let ghost pred = |x: u128| x != id;
            let mut kept: Vec<u128> = Vec::new();
            let n = running.len();
            for i in 0..n
                invariant
                    n == running.len(),
                    kept@ == running@.take(i as int).filter(pred),
                    pred == (|x: u128| x != id),
            {
                proof {
                    assert(running@.take(i + 1) =~= running@.take(i as int).push(running@[i as int]));
                    running@.take(i as int).lemma_filter_push(running@[i as int], pred);
                }
                if running[i] != id {
                    kept.push(running[i]);
                }
            }
            proof {
                assert(running@.take(n as int) =~= running@);
            }
            (kept, true)
        },
        WorkerOutcome::Panicked => (running, true),
        WorkerOutcome::Cancelled => (running, false),
    }
}

/// A task id is started at most once, and only when no worker runs it and
/// the database still holds it.
pub proof fn started_ids_are_new_and_distinct(running: Seq<u128>, current: Seq<u128>)
    ensures
        forall|k: int|
            0 <= k < ids_to_start(running, current).len() ==> !running.contains(
                #[trigger] ids_to_start(running, current)[k],
            ) && current.contains(ids_to_start(running, current)[k]),
        ids_to_start(running, current).no_duplicates(),
    decreases current.len(),
{
    if current.len() > 0 {
        let rest = current.drop_last();
        let x = current.last();
        started_ids_are_new_and_distinct(running, rest);
        let front = ids_to_start(running, rest);
        let s = ids_to_start(running, current);
        assert forall|k: int| 0 <= k < s.len() implies !running.contains(#[trigger] s[k]) && current.contains(s[k]) by {
            if k < front.len() {
                assert(s[k] == front[k]);
                assert(rest.contains(front[k]));
                let i = choose|i: int| 0 <= i < rest.len() && rest[i] == front[k];
                assert(current[i] == rest[i]);
            } else {
                assert(s[k] == x);
                assert(current[current.len() - 1] == x);
            }
        }
        if !running.contains(x) && !rest.contains(x) {
            assert forall|k: int| 0 <= k < front.len() implies front[k] != x by {
                assert(rest.contains(front[k]));
            }
            assert forall|i: int, j: int| 0 <= i < s.len() && 0 <= j < s.len() && i != j implies s[i] != s[j] by {
                if i < front.len() && j < front.len() {
                    assert(s[i] == front[i] && s[j] == front[j]);
                } else if i < front.len() {
                    assert(s[i] == front[i]);
                } else if j < front.len() {
                    assert(s[j] == front[j]);
                }
            }
        } else {
            assert(s =~= front);
        }
    }
}

/// The ids a round starts are exactly the ids the database holds and no
/// worker runs.
pub proof fn started_ids_are_exactly_the_unserved_ones(running: Seq<u128>, current: Seq<u128>, x: u128)
    ensures
        ids_to_start(running, current).contains(x) <==> (current.contains(x) && !running.contains(x)),
    decreases current.len(),
{
    if current.len() > 0 {
        let rest = current.drop_last();
        let y = current.last();
        started_ids_are_exactly_the_unserved_ones(running, rest, x);
        let front = ids_to_start(running, rest);
        let s = ids_to_start(running, current);
        let tail = if !running.contains(y) && !rest.contains(y) {
            seq![y]
        } else {
            Seq::<u128>::empty()
        };
        assert(s == front + tail);
        if s.contains(x) {
            let k = choose|k: int| 0 <= k < s.len() && s[k] == x;
            if k < front.len() {
                assert(front[k] == x);
                assert(rest.contains(x));
                let i = choose|i: int| 0 <= i < rest.len() && rest[i] == x;
                assert(current[i] == x);
            } else {
                assert(tail[k - front.len()] == x);
                assert(current[current.len() - 1] == x);
            }
        }
        if current.contains(x) && !running.contains(x) {
            let i = choose|i: int| 0 <= i < current.len() && current[i] == x;
            if i < rest.len() {
                assert(rest[i] == x);
                let k = choose|k: int| 0 <= k < front.len() && front[k] == x;
                assert(s[k] == x);
            } else if rest.contains(x) {
                let k = choose|k: int| 0 <= k < front.len() && front[k] == x;
                assert(s[k] == x);
            } else {
                assert(s[front.len() as int] == x);
            }
        }
    }
}

/// A worker that failed is started again in the next round, as long as the
/// database still holds its task.
pub proof fn failed_worker_restarts_next_round(running: Seq<u128>, current: Seq<u128>, id: u128)
    requires
        current.contains(id),
    ensures
        ids_to_start(running.filter(|x: u128| x != id), current).contains(id),
{
    let kept = running.filter(|x: u128| x != id);
    if kept.contains(id) {
        let k = choose|k: int| 0 <= k < kept.len() && kept[k] == id;
        assert(kept.contains(kept[k]));
    }
    started_ids_are_exactly_the_unserved_ones(kept, current, id);
}

} // verus!
