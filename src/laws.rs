use vstd::prelude::*;
use crate::server::{ControlMessage, DispatchEvent, P2pError, ServerView, WorkerAction, WorkerState};
use crate::server::Connection;

verus! {

/// In a well-formed state the peer count is the number of distinct registered peers.
pub proof fn law_peer_count_is_distinct_peers(s: ServerView)
    requires
        s.well_formed(),
    ensures
        s.peer_count() == s.ids().to_set().len(),
{
    assert forall|i: int, j: int| 0 <= i < s.ids().len() && 0 <= j < s.ids().len() && i != j
        implies s.ids()[i] != s.ids()[j] by {
        assert(s.ids()[i] == s.connections[i].peer_id);
        assert(s.ids()[j] == s.connections[j].peer_id);
    }
    assert(s.ids().no_duplicates());
    s.ids().unique_seq_to_set();
}

/// Registering a new peer adds exactly that peer and raises the count by one; registering
/// a known peer changes nothing.
pub proof fn law_add_counts_once(s: ServerView, c: Connection)
    requires
        s.well_formed(),
    ensures
        !s.has_peer(c.peer_id) ==> s.add(c).0.peer_count() == s.peer_count() + 1,
        s.has_peer(c.peer_id) ==> s.add(c).0.peer_count() == s.peer_count(),
        forall|q: u64| #[trigger] s.add(c).0.has_peer(q) <==> (s.has_peer(q) || q == c.peer_id),
{
    let t = s.add(c).0;
    assert forall|q: u64| #[trigger] t.has_peer(q) <==> (s.has_peer(q) || q == c.peer_id) by {
        if s.has_peer(q) && !s.has_peer(c.peer_id) {
            let i = choose|i: int| 0 <= i < s.connections.len() && s.connections[i].peer_id == q;
            assert(t.connections[i] == s.connections[i]);
        }
        if q == c.peer_id && !s.has_peer(c.peer_id) {
            assert(t.connections[s.connections.len() as int] == c);
        }
        if t.has_peer(q) && !s.has_peer(c.peer_id) {
            let i = choose|i: int| 0 <= i < t.connections.len() && t.connections[i].peer_id == q;
            if i < s.connections.len() {
                assert(t.connections[i] == s.connections[i]);
            }
        }
    }
}

/// Removing a registered peer removes exactly that peer and lowers the count by one.
pub proof fn law_remove_counts_once(s: ServerView, p: u64)
    requires
        s.well_formed(),
        s.has_peer(p),
    ensures
        s.remove(p).0.peer_count() == s.peer_count() - 1,
        forall|q: u64| #[trigger] s.remove(p).0.has_peer(q) <==> (s.has_peer(q) && q != p),
{
    let t = s.remove(p).0;
    let k = s.index_of(p);
    assert(s.connections[k].peer_id == p);
    assert forall|q: u64| #[trigger] t.has_peer(q) <==> (s.has_peer(q) && q != p) by {
        if t.has_peer(q) {
            let i = choose|i: int| 0 <= i < t.connections.len() && t.connections[i].peer_id == q;
            let i0 = if i < k { i } else { i + 1 };
            assert(t.connections[i] == s.connections[i0]);
            assert(i0 != k);
        }
        if s.has_peer(q) && q != p {
            let i = choose|i: int| 0 <= i < s.connections.len() && s.connections[i].peer_id == q;
            assert(i != k);
            let i1 = if i < k { i } else { i - 1 };
            assert(t.connections[i1] == s.connections[i]);
        }
    }
}

/// Registering a peer that is already registered is refused and leaves the state as it
/// was, so no peer ever has two entries.
pub proof fn law_add_never_duplicates(s: ServerView, c: Connection)
    requires
        s.well_formed(),
        s.peer_count() < s.max_peers,
    ensures
        s.has_peer(c.peer_id) ==> s.add(c) == (s, Err::<(), P2pError>(P2pError::PeerIdAlreadyUsed(c.peer_id))),
        forall|i: int, j: int|
            0 <= i < s.add(c).0.connections.len() && 0 <= j < s.add(c).0.connections.len() && i != j
                ==> s.add(c).0.connections[i].peer_id != s.add(c).0.connections[j].peer_id,
{
    s.lemma_add_well_formed(c);
}

/// An idle worker that takes a servable peer from the head of the queue becomes the one
/// and only worker assigned to it, and the peer stays registered.
pub proof fn law_claim_assigns_one_worker(s: ServerView, w: int, p: u64)
    requires
        s.well_formed(),
        0 <= w < s.max_peers,
        s.workers[w] == WorkerState::Idle,
        s.queue.len() > 0,
        s.queue[0] == DispatchEvent::NewConnection(p),
        s.can_serve(p),
    ensures
        s.step(w).0.assignment[w] == Some(p),
        forall|v: int| 0 <= v < s.max_peers && v != w ==> s.step(w).0.assignment[v] != Some(p),
        s.step(w).0.has_peer(p),
        s.step(w).0.workers[w] == WorkerState::Servicing(p),
{
    let t = s.step(w).0;
    assert forall|v: int| 0 <= v < s.max_peers && v != w implies t.assignment[v] != Some(p) by {
        if t.assignment[v] == Some(p) {
            assert(s.assignment[v] == Some(p));
            assert(s.is_assigned(p));
        }
    }
    assert(t.connections == s.connections);
}

/// Removing a peer that is not registered is refused and changes nothing.
pub proof fn law_remove_absent_changes_nothing(s: ServerView, p: u64)
    requires
        !s.has_peer(p),
    ensures
        s.remove(p) == (s, Err::<(), P2pError>(P2pError::PeerNotFound(p))),
{
}

/// After removing a registered peer it is no longer registered nor assigned, and the
/// worker that served it has `Exit` as the last message of its inbox.
pub proof fn law_remove_releases_peer(s: ServerView, p: u64, w: int)
    requires
        s.well_formed(),
        s.has_peer(p),
        0 <= w < s.max_peers,
        s.assignment[w] == Some(p),
    ensures
        !s.remove(p).0.has_peer(p),
        !s.remove(p).0.is_assigned(p),
        s.remove(p).0.assignment[w] is None,
        s.remove(p).0.inboxes[w] == s.inboxes[w].push(ControlMessage::Exit),
{
    law_remove_counts_once(s, p);
    assert(!s.remove(p).0.has_peer(p));
}

/// State after worker `w` takes `n` steps.
pub open spec fn steps(s: ServerView, w: int, n: nat) -> ServerView
    decreases n,
{
    if n == 0 {
        s
    } else {
        steps(s.step(w).0, w, (n - 1) as nat)
    }
}

/// A worker serving a peer whose inbox ends with `Exit` is idle again after at most as
/// many of its own steps as its inbox holds messages.
pub proof fn law_exit_makes_worker_idle(s: ServerView, w: int)
    requires
        0 <= w < s.workers.len(),
        w < s.inboxes.len(),
        s.workers[w] is Servicing,
        s.inboxes[w].len() > 0,
        s.inboxes[w].last() is Exit,
    ensures
        exists|k: nat| 0 < k <= s.inboxes[w].len() && (#[trigger] steps(s, w, k)).workers[w]
            == WorkerState::Idle,
    decreases s.inboxes[w].len(),
{
    let inbox = s.inboxes[w];
    let t = s.step(w).0;
    match inbox[0] {
        ControlMessage::Exit => {
            assert(steps(t, w, 0) == t);
            assert(steps(s, w, 1) == t);
            assert(t.workers[w] == WorkerState::Idle);
        },
        ControlMessage::SendBytes(b) => {
            assert(inbox.len() > 1);
            assert(t.inboxes[w] == inbox.drop_first());
            assert(t.inboxes[w].last() == inbox.last());
            law_exit_makes_worker_idle(t, w);
            let k = choose|k: nat| 0 < k <= t.inboxes[w].len() && (#[trigger] steps(t, w, k)).workers[w]
                == WorkerState::Idle;
            assert(steps(s, w, k + 1) == steps(t, w, k));
        },
    }
}

/// Sending to a peer that no worker serves (unknown, or not taken up yet) is refused and
/// queues nothing.
pub proof fn law_send_unassigned_changes_nothing(s: ServerView, p: u64, bytes: Vec<u8>)
    requires
        s.well_formed(),
        !s.has_peer(p) || !s.is_assigned(p),
    ensures
        s.send(p, bytes) == (s, Err::<(), P2pError>(P2pError::PeerNotFound(p))),
{
    if s.is_assigned(p) {
        let w = s.worker_of(p);
        assert(s.assignment[w] is Some);
    }
}

/// Two sends to a served peer queue both messages, in order, in the inbox of its worker
/// and nowhere else.
pub proof fn law_send_keeps_order(s: ServerView, p: u64, w: int, first: Vec<u8>, second: Vec<u8>)
    requires
        s.well_formed(),
        0 <= w < s.max_peers,
        s.assignment[w] == Some(p),
    ensures
        s.send(p, first).1 is Ok,
        s.send(p, first).0.send(p, second).1 is Ok,
        s.send(p, first).0.send(p, second).0.inboxes[w] == s.inboxes[w].push(
            ControlMessage::SendBytes(first),
        ).push(ControlMessage::SendBytes(second)),
        forall|v: int|
            0 <= v < s.max_peers && v != w ==> s.send(p, first).0.send(p, second).0.inboxes[v]
                == s.inboxes[v],
{
    assert(s.is_assigned(p));
    let k = s.worker_of(p);
    assert(s.assignment[k] == Some(p));
    assert(k == w);
    let t = s.send(p, first).0;
    assert(t.assignment == s.assignment);
    assert(t.is_assigned(p));
    let k2 = t.worker_of(p);
    assert(t.assignment[k2] == Some(p));
    assert(k2 == w);
}

/// A worker serving a peer writes the oldest pending bytes first, exactly once.
pub proof fn law_worker_writes_oldest_first(s: ServerView, w: int, p: u64, bytes: Vec<u8>)
    requires
        0 <= w < s.workers.len(),
        w < s.inboxes.len(),
        s.workers[w] == WorkerState::Servicing(p),
        s.inboxes[w].len() > 0,
        s.inboxes[w][0] == ControlMessage::SendBytes(bytes),
    ensures
        s.step(w).1 == WorkerAction::Write(p, bytes),
        s.step(w).0.inboxes[w] == s.inboxes[w].drop_first(),
{
}

/// New connections are accepted exactly while the server is not full, and the number of
/// free slots is never negative.
pub proof fn law_accept_iff_not_full(s: ServerView)
    requires
        s.well_formed(),
    ensures
        !(s.peer_count() < s.max_peers) <==> s.peer_count() == s.max_peers,
        s.max_peers - s.peer_count() >= 0,
{
}

/// An idle worker that takes a shutdown event stops, and a stopped worker stays stopped.
pub proof fn law_shutdown_stops_worker(s: ServerView, w: int)
    requires
        0 <= w < s.workers.len(),
        s.workers[w] == WorkerState::Idle || s.workers[w] == WorkerState::Stopped,
        s.workers[w] == WorkerState::Idle ==> s.queue.len() > 0 && s.queue[0] == DispatchEvent::Shutdown,
    ensures
        s.step(w).0.workers[w] == WorkerState::Stopped,
        s.step(w).1 is Stop,
{
}

/// With no connection registered, an idle worker skips the connection events ahead of the
/// first shutdown event in the queue and stops on it.
pub proof fn law_idle_worker_reaches_shutdown(s: ServerView, w: int, k: nat)
    requires
        0 <= w < s.workers.len(),
        s.connections.len() == 0,
        s.workers[w] == WorkerState::Idle,
        k < s.queue.len(),
        s.queue[k as int] == DispatchEvent::Shutdown,
        forall|j: int| 0 <= j < k ==> s.queue[j] is NewConnection,
    ensures
        steps(s, w, k + 1).workers[w] == WorkerState::Stopped,
    decreases k,
{
    let t = s.step(w).0;
    if k == 0 {
        assert(steps(t, w, 0) == t);
    } else {
        let p = s.queue[0]->NewConnection_0;
        assert(!s.has_peer(p));
        assert(t == ServerView { queue: s.queue.drop_first(), ..s });
        assert forall|j: int| 0 <= j < k - 1 implies t.queue[j] is NewConnection by {
            assert(t.queue[j] == s.queue[j + 1]);
        }
        law_idle_worker_reaches_shutdown(t, w, (k - 1) as nat);
        assert(steps(s, w, k + 1) == steps(t, w, k));
    }
}

} // verus!
