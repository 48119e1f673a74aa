//! The queue and discovery guarantees, stated and proved over the
//! abstract state transitions that the executable operations are
//! verified to implement.

use vstd::prelude::*;

use crate::discovery::diff_spec;
use crate::errors::FtpError;
use crate::manager::queue_paths;
use crate::manager::spec_clear;
use crate::manager::spec_enqueue;
use crate::manager::spec_remove;
use crate::manager::GameFileView;
use crate::manager::ManagerView;
use crate::manager::TaskView;

verus! {

/// The queued paths are pairwise distinct.
pub open spec fn unique_paths(q: Seq<TaskView>) -> bool {
    forall|i: int, j: int|
        0 <= i < j < q.len() ==> #[trigger] q[i].file.file_path != (#[trigger] q[j].file.file_path)
}

/// Removing a path from a queue with distinct paths drops exactly the
/// one task carrying it (none when it is absent), and keeps the paths
/// distinct.
pub proof fn lemma_remove_filter(q: Seq<TaskView>, path: Seq<char>)
    requires
        unique_paths(q),
    ensures
        q.filter(|t: TaskView| t.file.file_path != path).len() == q.len() - (if queue_paths(
            q,
        ).contains(path) {
            1int
        } else {
            0int
        }),
        unique_paths(q.filter(|t: TaskView| t.file.file_path != path)),
    decreases q.len(),
{
    let pred = |t: TaskView| t.file.file_path != path;
    if q.len() == 0 {
        assert(q.filter(pred) =~= Seq::<TaskView>::empty());
        assert(!queue_paths(q).contains(path));
    } else {
        let rest = q.drop_last();
        let last = q.last();
        assert(q =~= rest.push(last));
        rest.lemma_filter_push(last, pred);
        assert(unique_paths(rest));
        lemma_remove_filter(rest, path);
        // Membership of `path` splits between the front and the last task.
        if last.file.file_path == path {
            // By uniqueness no task of `rest` carries `path`.
            assert(!queue_paths(rest).contains(path)) by {
                if queue_paths(rest).contains(path) {
                    let k = choose|k: int|
                        0 <= k < queue_paths(rest).len() && queue_paths(rest)[k] == path;
                    assert(q[k].file.file_path == q[q.len() - 1].file.file_path);
                }
            }
            assert(queue_paths(q)[q.len() - 1] == path);
            assert(queue_paths(q).contains(path));
            assert(q.filter(pred) == rest.filter(pred));
        } else {
            assert(q.filter(pred) == rest.filter(pred).push(last));
            assert(queue_paths(q).contains(path) == queue_paths(rest).contains(path)) by {
                if queue_paths(rest).contains(path) {
                    let k = choose|k: int|
                        0 <= k < queue_paths(rest).len() && queue_paths(rest)[k] == path;
                    assert(queue_paths(q)[k] == path);
                }
                if queue_paths(q).contains(path) {
                    let k = choose|k: int|
                        0 <= k < queue_paths(q).len() && queue_paths(q)[k] == path;
                    assert(k < q.len() - 1);
                    assert(queue_paths(rest)[k] == path);
                }
            }
            // The kept last task differs from every kept front task.
            assert(unique_paths(q.filter(pred))) by {
                let fr = rest.filter(pred);
                assert forall|i: int, j: int|
                    0 <= i < j < q.filter(pred).len() implies #[trigger] q.filter(
                    pred,
                )[i].file.file_path != (#[trigger] q.filter(pred)[j].file.file_path) by {
                    if j == q.filter(pred).len() - 1 {
                        assert(q.filter(pred)[j] == last);
                        assert(fr.contains(fr[i])) by {
                            assert(fr[i] == q.filter(pred)[i]);
                        }
                        rest.lemma_filter_contains_rev(pred, fr[i]);
                        let k = choose|k: int| 0 <= k < rest.len() && rest[k] == fr[i];
                        assert(q[k] == fr[i]);
                        assert(q[k].file.file_path != q[q.len() - 1].file.file_path);
                    } else {
                        assert(fr[i] == q.filter(pred)[i] && fr[j] == q.filter(pred)[j]);
                    }
                }
            }
        }
    }
}

/// Enqueuing preserves the manager's invariant.
pub proof fn lemma_enqueue_preserves_wf(m: ManagerView, f: GameFileView)
    requires
        m.wf(),
    ensures
        spec_enqueue(m, f).0.wf(),
{
    if !queue_paths(m.queue).contains(f.file_path) {
        let q1 = spec_enqueue(m, f).0.queue;
        assert forall|i: int, j: int|
            0 <= i < j < q1.len() implies #[trigger] q1[i].file.file_path != (
        #[trigger] q1[j].file.file_path) by {
            if j == q1.len() - 1 {
                assert(queue_paths(m.queue)[i] == m.queue[i].file.file_path);
            }
        }
    }
}

/// Cancelling preserves the manager's invariant.
pub proof fn lemma_remove_preserves_wf(m: ManagerView, path: Seq<char>)
    requires
        m.wf(),
    ensures
        spec_remove(m, path).0.wf(),
{
    if !(m.active matches Some(f) && f.file_path == path) && queue_paths(m.queue).contains(path) {
        lemma_remove_filter(m.queue, path);
        let pred = |t: TaskView| t.file.file_path != path;
        let q1 = m.queue.filter(pred);
        assert forall|i: int| 0 <= i < q1.len() implies #[trigger] q1[i].status
            == crate::manager::TransferStatus::Queued by {
            assert(q1.contains(q1[i]));
            m.queue.lemma_filter_contains_rev(pred, q1[i]);
            let k = choose|k: int| 0 <= k < m.queue.len() && m.queue[k] == q1[i];
            assert(m.queue[k].status == crate::manager::TransferStatus::Queued);
        }
    }
}

/// Clearing preserves the manager's invariant.
pub proof fn lemma_clear_preserves_wf(m: ManagerView)
    requires
        m.wf(),
    ensures
        spec_clear(m).0.wf(),
{
}

/// Enqueue is idempotent-rejecting: once a file is queued, enqueuing any
/// file with the same path again is refused with `DuplicateEntry` and
/// changes nothing, so the queue length stays what the first call made
/// it.
pub proof fn lemma_enqueue_duplicate_rejected(m: ManagerView, f: GameFileView, g: GameFileView)
    requires
        g.file_path == f.file_path,
        spec_enqueue(m, f).1 is Ok,
    ensures
        spec_enqueue(spec_enqueue(m, f).0, g).1 == Err::<bool, FtpError>(FtpError::DuplicateEntry),
        spec_enqueue(spec_enqueue(m, f).0, g).0 == spec_enqueue(m, f).0,
{
    let m1 = spec_enqueue(m, f).0;
    assert(queue_paths(m1.queue)[m1.queue.len() - 1] == f.file_path);
    assert(queue_paths(m1.queue).contains(g.file_path));
}

/// Clearing while a transfer is in progress fails with `Busy` and
/// changes nothing; in particular the queue length is unchanged.
pub proof fn lemma_clear_while_busy(m: ManagerView)
    requires
        m.is_transferring,
    ensures
        spec_clear(m) == (m, Err::<(), FtpError>(FtpError::Busy)),
{
}

/// Cancelling the task currently transferring fails with `InUse` and
/// changes nothing; cancelling any other queued path succeeds and
/// removes exactly that task, so the queue shortens by one.
pub proof fn lemma_cancel(m: ManagerView, path: Seq<char>)
    requires
        m.wf(),
    ensures
        (m.active matches Some(f) && f.file_path == path) ==> spec_remove(m, path) == (
            m,
            Err::<(), FtpError>(FtpError::InUse),
        ),
        !(m.active matches Some(f) && f.file_path == path) && queue_paths(m.queue).contains(path)
            ==> spec_remove(m, path).1 == Ok::<(), FtpError>(()) && spec_remove(m, path).0.queue
            == m.queue.filter(|t: TaskView| t.file.file_path != path) && spec_remove(
            m,
            path,
        ).0.queue.len() == m.queue.len() - 1,
        !(m.active matches Some(f) && f.file_path == path) && !queue_paths(m.queue).contains(path)
            ==> spec_remove(m, path) == (m, Err::<(), FtpError>(FtpError::NotFound)),
{
    lemma_remove_filter(m.queue, path);
}

/// Popping the front task into the active slot preserves the manager's
/// invariant.
pub proof fn lemma_worker_pop_preserves_wf(m: ManagerView)
    requires
        m.wf(),
        m.is_transferring,
        m.queue.len() > 0,
    ensures
        (ManagerView { queue: m.queue.drop_first(), active: Some(m.queue[0].file), ..m }).wf(),
{
    let q1 = m.queue.drop_first();
    assert forall|i: int, j: int|
        0 <= i < j < q1.len() implies #[trigger] q1[i].file.file_path != (
    #[trigger] q1[j].file.file_path) by {
        assert(m.queue[i + 1].file.file_path != m.queue[j + 1].file.file_path);
    }
    assert forall|i: int| 0 <= i < q1.len() implies #[trigger] q1[i].status
        == crate::manager::TransferStatus::Queued by {
        assert(m.queue[i + 1].status == crate::manager::TransferStatus::Queued);
    }
}

/// Settling the active transfer preserves the manager's invariant.
pub proof fn lemma_worker_settle_preserves_wf(m: ManagerView)
    requires
        m.wf(),
    ensures
        (ManagerView { active: None, ..m }).wf(),
{
}

/// A queue command, for the length-accounting law.
pub ghost enum QueueOp {
    Enqueue(GameFileView),
    Cancel(Seq<char>),
    Clear,
}

/// The state after one command.
pub open spec fn apply_op(m: ManagerView, op: QueueOp) -> ManagerView {
    match op {
        QueueOp::Enqueue(f) => spec_enqueue(m, f).0,
        QueueOp::Cancel(p) => spec_remove(m, p).0,
        QueueOp::Clear => spec_clear(m).0,
    }
}

/// How many tasks one command adds: 1 for a successful enqueue, 0
/// otherwise.
pub open spec fn op_added(m: ManagerView, op: QueueOp) -> int {
    match op {
        QueueOp::Enqueue(f) => if spec_enqueue(m, f).1 is Ok {
            1
        } else {
            0
        },
        _ => 0,
    }
}

/// How many tasks one command removes: 1 for a successful cancel, the
/// whole queue for a successful clear, 0 otherwise.
pub open spec fn op_removed(m: ManagerView, op: QueueOp) -> int {
    match op {
        QueueOp::Enqueue(_) => 0,
        QueueOp::Cancel(p) => if spec_remove(m, p).1 is Ok {
            1
        } else {
            0
        },
        QueueOp::Clear => if spec_clear(m).1 is Ok {
            m.queue.len() as int
        } else {
            0
        },
    }
}

/// The state after a command sequence, applied front first.
pub open spec fn run_ops(m: ManagerView, ops: Seq<QueueOp>) -> ManagerView
    decreases ops.len(),
{
    if ops.len() == 0 {
        m
    } else {
        run_ops(apply_op(m, ops[0]), ops.drop_first())
    }
}

/// Total additions over a command sequence.
pub open spec fn total_added(m: ManagerView, ops: Seq<QueueOp>) -> int
    decreases ops.len(),
{
    if ops.len() == 0 {
        0
    } else {
        op_added(m, ops[0]) + total_added(apply_op(m, ops[0]), ops.drop_first())
    }
}

/// Total removals over a command sequence.
pub open spec fn total_removed(m: ManagerView, ops: Seq<QueueOp>) -> int
    decreases ops.len(),
{
    if ops.len() == 0 {
        0
    } else {
        op_removed(m, ops[0]) + total_removed(apply_op(m, ops[0]), ops.drop_first())
    }
}

/// One command moves the queue length by exactly its additions minus its
/// removals, and preserves the invariant.
pub proof fn lemma_op_length(m: ManagerView, op: QueueOp)
    requires
        m.wf(),
    ensures
        apply_op(m, op).wf(),
        apply_op(m, op).queue.len() == m.queue.len() + op_added(m, op) - op_removed(m, op),
{
    match op {
        QueueOp::Enqueue(f) => {
            lemma_enqueue_preserves_wf(m, f);
        },
        QueueOp::Cancel(p) => {
            lemma_remove_preserves_wf(m, p);
            lemma_remove_filter(m.queue, p);
        },
        QueueOp::Clear => {
            lemma_clear_preserves_wf(m);
        },
    }
}

/// Queue length accounting: after any sequence of queue commands, the
/// queue length equals what it was plus the successful enqueues minus
/// the successful removals (a cancel removes one task, a clear removes
/// all).  On a fresh manager the length is exactly successful enqueues
/// minus removals.
pub proof fn lemma_queue_length_accounting(m: ManagerView, ops: Seq<QueueOp>)
    requires
        m.wf(),
    ensures
        run_ops(m, ops).wf(),
        run_ops(m, ops).queue.len() == m.queue.len() + total_added(m, ops) - total_removed(m, ops),
    decreases ops.len(),
{
    if ops.len() > 0 {
        lemma_op_length(m, ops[0]);
        lemma_queue_length_accounting(apply_op(m, ops[0]), ops.drop_first());
    }
}

/// Canonical decimal numerals read back as their value: the addresses
/// the range generator emits for octets `s4`, `s4 + 1`, ... end in
/// numerals whose numeric values ascend exactly so.
pub proof fn lemma_canonical_numeral_round_trip(n: int)
    requires
        n >= 0,
    ensures
        crate::text::all_digits(crate::text::dec_chars(n)),
        crate::text::dec_val(crate::text::dec_chars(n)) == n,
        crate::text::dec_chars(n).len() >= 1,
    decreases n,
{
    let s = crate::text::dec_chars(n);
    if n < 10 {
        assert(s =~= seq![crate::text::digit_char(n)]);
        assert(crate::text::is_digit(s[0]));
        assert(s.drop_last() =~= Seq::<char>::empty());
        assert(crate::text::digit_val(crate::text::digit_char(n)) == n);
        assert(crate::text::dec_val(s.drop_last()) == 0);
        assert(crate::text::dec_val(s) == crate::text::digit_val(s.last()));
    } else {
        lemma_canonical_numeral_round_trip(n / 10);
        let front = crate::text::dec_chars(n / 10);
        assert(s == front.push(crate::text::digit_char(n % 10)));
        assert(s.drop_last() =~= front);
        assert(s.last() == crate::text::digit_char(n % 10));
        assert(crate::text::all_digits(s)) by {
            assert forall|i: int| 0 <= i < s.len() implies crate::text::is_digit(
                #[trigger] s[i],
            ) by {
                if i < s.len() - 1 {
                    assert(s[i] == front[i]);
                }
            }
        }
        assert(crate::text::dec_val(s) == crate::text::dec_val(front) * 10
            + crate::text::digit_val(crate::text::digit_char(n % 10)));
        vstd::arithmetic::div_mod::lemma_fundamental_div_mod(n, 10);
    }
}

/// Discovery diffing computes set difference: interpreting host lists as
/// sets, the hosts reported added are exactly current minus previous,
/// and symmetrically for the hosts reported removed.
pub proof fn lemma_diff_is_set_difference(a: Seq<Seq<char>>, b: Seq<Seq<char>>)
    ensures
        diff_spec(a, b).to_set() == a.to_set().difference(b.to_set()),
{
    let pred = |h: Seq<char>| !b.contains(h);
    assert forall|x: Seq<char>| #[trigger] diff_spec(a, b).to_set().contains(x) implies a.to_set()
        .difference(b.to_set()).contains(x) by {
        a.lemma_filter_contains_rev(pred, x);
        let i = choose|i: int| 0 <= i < diff_spec(a, b).len() && diff_spec(a, b)[i] == x;
        a.lemma_filter_pred(pred, i);
    }
    assert forall|x: Seq<char>| #[trigger] a.to_set().difference(b.to_set()).contains(x) implies
        diff_spec(a, b).to_set().contains(x) by {
        let i = choose|i: int| 0 <= i < a.len() && a[i] == x;
        a.lemma_filter_contains(pred, i);
    }
    assert(diff_spec(a, b).to_set() =~= a.to_set().difference(b.to_set()));
}

} // verus!
