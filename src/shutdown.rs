use vstd::prelude::*;
use crate::server::{ControlMessage, DispatchEvent, ServerView, WorkerState};

verus! {

/// The sum of `xs`.
pub open spec fn total(xs: Seq<int>) -> int
    decreases xs.len(),
{
    if xs.len() == 0 {
        0
    } else {
        xs[0] + total(xs.drop_first())
    }
}

pub proof fn lemma_total_update(xs: Seq<int>, i: int, v: int)
    requires
        0 <= i < xs.len(),
    ensures
        total(xs.update(i, v)) == total(xs) - xs[i] + v,
    decreases xs.len(),
{
    if i == 0 {
        assert(xs.update(i, v).drop_first() =~= xs.drop_first());
    } else {
        assert(xs.update(i, v).drop_first() =~= xs.drop_first().update(i - 1, v));
        lemma_total_update(xs.drop_first(), i - 1, v);
    }
}

pub proof fn lemma_total_concat(a: Seq<int>, b: Seq<int>)
    ensures
        total(a + b) == total(a) + total(b),
    decreases a.len(),
{
    if a.len() == 0 {
        assert(a + b =~= b);
    } else {
        assert((a + b).drop_first() =~= a.drop_first() + b);
        lemma_total_concat(a.drop_first(), b);
    }
}

pub proof fn lemma_total_nonneg(xs: Seq<int>)
    requires
        forall|i: int| 0 <= i < xs.len() ==> xs[i] >= 0,
    ensures
        total(xs) >= 0,
    decreases xs.len(),
{
    if xs.len() > 0 {
        lemma_total_nonneg(xs.drop_first());
    }
}

pub proof fn lemma_total_ones(n: nat)
    ensures
        total(Seq::new(n, |i: int| 1int)) == n,
    decreases n,
{
    if n > 0 {
        assert(Seq::new(n, |i: int| 1int).drop_first() =~= Seq::new((n - 1) as nat, |i: int| 1int));
        lemma_total_ones((n - 1) as nat);
    }
}

pub proof fn lemma_total_at_most_len(xs: Seq<int>)
    requires
        forall|i: int| 0 <= i < xs.len() ==> 0 <= #[trigger] xs[i] <= 1,
    ensures
        total(xs) <= xs.len(),
    decreases xs.len(),
{
    if xs.len() > 0 {
        lemma_total_at_most_len(xs.drop_first());
    }
}

pub open spec fn is_shutdown(e: DispatchEvent) -> int {
    if e == DispatchEvent::Shutdown { 1 } else { 0 }
}

pub open spec fn is_active(ws: WorkerState) -> int {
    if ws == WorkerState::Stopped { 0 } else { 1 }
}

pub open spec fn weight(ws: WorkerState) -> int {
    match ws {
        WorkerState::Servicing(_) => 2,
        WorkerState::Idle => 1,
        WorkerState::Stopped => 0,
    }
}

/// Shutdown events waiting in the queue.
pub open spec fn pending_shutdowns(s: ServerView) -> int {
    total(s.queue.map_values(|e: DispatchEvent| is_shutdown(e)))
}

/// Workers that have not stopped.
pub open spec fn active_workers(s: ServerView) -> int {
    total(s.workers.map_values(|ws: WorkerState| is_active(ws)))
}

/// Work left before every worker has stopped: queued events, queued control messages, and
/// two for a serving worker, one for an idle one.
pub open spec fn work_left(s: ServerView) -> int {
    s.queue.len() + total(s.inboxes.map_values(|m: Seq<ControlMessage>| m.len() as int)) + total(
        s.workers.map_values(|ws: WorkerState| weight(ws)),
    )
}

/// The states a server is in once `stop` has run: no connection is left and there are at
/// least as many shutdown events queued as workers that have not stopped.
pub open spec fn draining(s: ServerView) -> bool {
    &&& s.connections.len() == 0
    &&& s.workers.len() == s.inboxes.len()
    &&& pending_shutdowns(s) >= active_workers(s)
}

/// The state that `stop` leaves, with any queue before it, is draining.
pub proof fn law_stop_leaves_draining(s: ServerView, before: Seq<DispatchEvent>)
    requires
        s.well_formed(),
        s.connections.len() == 0,
        s.queue == before + Seq::new(s.max_peers, |i: int| DispatchEvent::Shutdown),
    ensures
        draining(s),
{
    let n = s.max_peers;
    let tail = Seq::new(n, |i: int| DispatchEvent::Shutdown);
    assert(s.queue.map_values(|e: DispatchEvent| is_shutdown(e)) =~= before.map_values(
        |e: DispatchEvent| is_shutdown(e),
    ) + tail.map_values(|e: DispatchEvent| is_shutdown(e)));
    lemma_total_concat(
        before.map_values(|e: DispatchEvent| is_shutdown(e)),
        tail.map_values(|e: DispatchEvent| is_shutdown(e)),
    );
    assert(tail.map_values(|e: DispatchEvent| is_shutdown(e)) =~= Seq::new(n, |i: int| 1int));
    lemma_total_ones(n);
    lemma_total_nonneg(before.map_values(|e: DispatchEvent| is_shutdown(e)));
    lemma_total_at_most_len(s.workers.map_values(|ws: WorkerState| is_active(ws)));
}

/// In a draining state, a step of any worker that has not stopped never waits, strictly
/// lowers the work left, and leaves the state draining. Hence every order of steps of
/// workers that have not stopped reaches, within `work_left` steps, a state where every
/// worker has stopped, which is when the pool's threads have all returned.
pub proof fn law_draining_step_progresses(s: ServerView, w: int)
    requires
        draining(s),
        0 <= w < s.workers.len(),
        s.workers[w] != WorkerState::Stopped,
    ensures
        !(s.step(w).1 is Wait),
        draining(s.step(w).0),
        work_left(s.step(w).0) < work_left(s),
        work_left(s.step(w).0) >= 0,
{
    let t = s.step(w).0;
    let ws = s.workers.map_values(|x: WorkerState| weight(x));
    let act = s.workers.map_values(|x: WorkerState| is_active(x));
    let lens = s.inboxes.map_values(|m: Seq<ControlMessage>| m.len() as int);
    let sh = s.queue.map_values(|e: DispatchEvent| is_shutdown(e));
    lemma_total_nonneg(t.inboxes.map_values(|m: Seq<ControlMessage>| m.len() as int));
    lemma_total_nonneg(t.workers.map_values(|x: WorkerState| weight(x)));
    match s.workers[w] {
        WorkerState::Idle => {
            if s.queue.len() == 0 {
                assert(sh =~= Seq::<int>::empty());
                assert(act[w] == 1);
                lemma_total_update(act, w, 0);
                lemma_total_nonneg(act.update(w, 0));
                assert(false);
            }
            match s.queue[0] {
                DispatchEvent::Shutdown => {
                    assert(t.queue.map_values(|e: DispatchEvent| is_shutdown(e)) =~= sh.drop_first());
                    assert(t.workers.map_values(|x: WorkerState| is_active(x)) =~= act.update(w, 0));
                    lemma_total_update(act, w, 0);
                    assert(t.workers.map_values(|x: WorkerState| weight(x)) =~= ws.update(w, 0));
                    lemma_total_update(ws, w, 0);
                    assert(t.inboxes == s.inboxes);
                },
                DispatchEvent::NewConnection(p) => {
                    assert(!s.has_peer(p));
                    assert(t.queue.map_values(|e: DispatchEvent| is_shutdown(e)) =~= sh.drop_first());
                    assert(t.workers == s.workers);
                    assert(t.inboxes == s.inboxes);
                },
            }
        },
        WorkerState::Servicing(p) => {
            assert(t.queue == s.queue);
            let inbox = s.inboxes[w];
            if inbox.len() > 0 {
                match inbox[0] {
                    ControlMessage::Exit => {
                        assert(t.workers.map_values(|x: WorkerState| weight(x)) =~= ws.update(w, 1));
                        lemma_total_update(ws, w, 1);
                        assert(t.workers.map_values(|x: WorkerState| is_active(x)) =~= act.update(w, 1));
                        assert(act.update(w, 1) =~= act);
                        assert(t.inboxes.map_values(|m: Seq<ControlMessage>| m.len() as int) =~= lens.update(w, 0));
                        lemma_total_update(lens, w, 0);
                    },
                    ControlMessage::SendBytes(b) => {
                        assert(t.workers == s.workers);
                        assert(t.inboxes.map_values(|m: Seq<ControlMessage>| m.len() as int) =~= lens.update(w, inbox.len() - 1));
                        lemma_total_update(lens, w, inbox.len() - 1);
                    },
                }
            } else {
                assert(!s.has_peer(p));
                assert(t.workers.map_values(|x: WorkerState| weight(x)) =~= ws.update(w, 1));
                lemma_total_update(ws, w, 1);
                assert(t.workers.map_values(|x: WorkerState| is_active(x)) =~= act.update(w, 1));
                assert(act.update(w, 1) =~= act);
                assert(t.inboxes.map_values(|m: Seq<ControlMessage>| m.len() as int) =~= lens.update(w, 0));
                lemma_total_update(lens, w, 0);
            }
        },
        WorkerState::Stopped => {},
    }
}

} // verus!
