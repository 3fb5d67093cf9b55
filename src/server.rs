use vstd::prelude::*;
use vstd::pervasive::VecAdditionalExecFns;

verus! {

/// Errors reported by the server's operations.
#[derive(Debug, Clone, Copy, PartialEq, Eq, Structural)]
pub enum P2pError {
    /// A shared structure could not be accessed.
    OnLock,
    /// No connection with this peer id is registered, or it is not yet served.
    PeerNotFound(u64),
    /// A connection with this peer id is already registered.
    PeerIdAlreadyUsed(u64),
    /// A message for this peer could not be delivered to its worker.
    OnChannelMessage(u64),
    /// The transport of this peer could not be closed.
    OnConnectionClose(u64),
}

/// The server's record of one open transport session.
#[derive(Debug)]
pub struct Connection {
    pub peer_id: u64,
    pub address: String,
    pub closed: bool,
}

impl Connection {
    pub fn new(peer_id: u64, address: String) -> (r: Connection)
        ensures
            r.peer_id == peer_id,
            r.address == address,
            !r.closed,
    {
        Connection { peer_id, address, closed: false }
    }

    pub fn get_peer_id(&self) -> (r: u64)
        ensures
            r == self.peer_id,
    {
        self.peer_id
    }

    pub fn get_peer_address(&self) -> (r: &String)
        ensures
            r == self.address,
    {
        &self.address
    }

    pub fn is_closed(&self) -> (r: bool)
        ensures
            r == self.closed,
    {
        self.closed
    }

    /// Marks the session closed; closing a closed session changes nothing.
    pub fn close(&mut self)
        ensures
            final(self).closed,
            final(self).peer_id == old(self).peer_id,
            final(self).address == old(self).address,
    {
        self.closed = true;
    }

    pub fn duplicate(&self) -> (r: Connection)
        ensures
            r == *self,
    {
        Connection { peer_id: self.peer_id, address: self.address.clone(), closed: self.closed }
    }
}

/// An event on the shared dispatch queue, taken by whichever idle worker asks first.
#[derive(Debug, Clone, Copy, PartialEq, Eq, Structural)]
pub enum DispatchEvent {
    /// Serve the connection of this peer.
    NewConnection(u64),
    /// Leave the pool.
    Shutdown,
}

/// A message in one worker's private inbox.
#[derive(Debug)]
pub enum ControlMessage {
    SendBytes(Vec<u8>),
    Exit,
}

/// What one worker is doing.
#[derive(Debug, Clone, Copy, PartialEq, Eq, Structural)]
pub enum WorkerState {
    Idle,
    Servicing(u64),
    Stopped,
}

/// What the thread running a worker must do after one step of the worker.
#[derive(Debug)]
pub enum WorkerAction {
    /// The dispatch queue is empty: wait for an event.
    Wait,
    /// The worker received a shutdown event: its thread returns.
    Stop,
    /// The worker now serves this peer.
    Serve(u64),
    /// The event named a peer that cannot be served (gone, closed or served already).
    Discard(u64),
    /// Write these bytes to the transport of this peer.
    Write(u64, Vec<u8>),
    /// Make one bounded attempt to read and handle input of this peer.
    Read(u64),
    /// The worker stopped serving this peer and is idle again.
    Release(u64),
}

/// The abstract state of a server.
pub struct ServerView {
    pub peer_id: u64,
    pub tag: Option<String>,
    pub max_peers: nat,
    pub bind_address: String,
    /// Registered connections, in the order they were added.
    pub connections: Seq<Connection>,
    /// For each worker, the peer assigned to it.
    pub assignment: Seq<Option<u64>>,
    /// For each worker, its pending control messages, oldest first.
    pub inboxes: Seq<Seq<ControlMessage>>,
    pub workers: Seq<WorkerState>,
    /// Pending dispatch events, oldest first.
    pub queue: Seq<DispatchEvent>,
}

impl ServerView {
    pub open spec fn ids(self) -> Seq<u64> {
        self.connections.map_values(|c: Connection| c.peer_id)
    }

    pub open spec fn has_peer(self, p: u64) -> bool {
        exists|i: int| 0 <= i < self.connections.len() && self.connections[i].peer_id == p
    }

    pub open spec fn index_of(self, p: u64) -> int {
        choose|i: int| 0 <= i < self.connections.len() && self.connections[i].peer_id == p
    }

    pub open spec fn is_closed(self, p: u64) -> bool {
        exists|i: int|
            0 <= i < self.connections.len() && self.connections[i].peer_id == p
                && self.connections[i].closed
    }

    pub open spec fn is_assigned(self, p: u64) -> bool {
        exists|w: int| 0 <= w < self.assignment.len() && self.assignment[w] == Some(p)
    }

    pub open spec fn worker_of(self, p: u64) -> int {
        choose|w: int| 0 <= w < self.assignment.len() && self.assignment[w] == Some(p)
    }

    pub open spec fn peer_count(self) -> nat {
        self.connections.len()
    }

    pub open spec fn well_formed(self) -> bool {
        &&& self.workers.len() == self.max_peers
        &&& self.assignment.len() == self.max_peers
        &&& self.inboxes.len() == self.max_peers
        &&& self.connections.len() <= self.max_peers
        &&& forall|i: int, j: int|
            0 <= i < self.connections.len() && 0 <= j < self.connections.len() && i != j
                ==> self.connections[i].peer_id != self.connections[j].peer_id
        &&& forall|w: int|
            0 <= w < self.assignment.len() && (#[trigger] self.assignment[w]) is Some
                ==> self.workers[w] == WorkerState::Servicing(self.assignment[w]->Some_0)
                && self.has_peer(self.assignment[w]->Some_0)
        &&& forall|v: int, w: int|
            0 <= v < self.assignment.len() && 0 <= w < self.assignment.len() && v != w
                && self.assignment[v] is Some ==> self.assignment[v] != self.assignment[w]
    }

    /// The state after registering `c`, and the result.
    pub open spec fn add(self, c: Connection) -> (ServerView, Result<(), P2pError>) {
        if self.has_peer(c.peer_id) {
            (self, Err(P2pError::PeerIdAlreadyUsed(c.peer_id)))
        } else {
            (
                ServerView {
                    connections: self.connections.push(c),
                    queue: self.queue.push(DispatchEvent::NewConnection(c.peer_id)),
                    ..self
                },
                Ok(()),
            )
        }
    }

    /// The state after removing peer `p`, and the result.
    pub open spec fn remove(self, p: u64) -> (ServerView, Result<(), P2pError>) {
        if !self.has_peer(p) {
            (self, Err(P2pError::PeerNotFound(p)))
        } else {
            (
                ServerView {
                    connections: self.connections.remove(self.index_of(p)),
                    assignment: self.assignment.map_values(
                        |a: Option<u64>| if a == Some(p) { None } else { a },
                    ),
                    inboxes: self.inboxes.map(
                        |w: int, inbox: Seq<ControlMessage>|
                            if self.assignment[w] == Some(p) {
                                inbox.push(ControlMessage::Exit)
                            } else {
                                inbox
                            },
                    ),
                    ..self
                },
                Ok(()),
            )
        }
    }

    /// The state after asking the worker of peer `p` to write `bytes`, and the result.
    pub open spec fn send(self, p: u64, bytes: Vec<u8>) -> (ServerView, Result<(), P2pError>) {
        if !self.is_assigned(p) {
            (self, Err(P2pError::PeerNotFound(p)))
        } else {
            let w = self.worker_of(p);
            (
                ServerView {
                    inboxes: self.inboxes.update(
                        w,
                        self.inboxes[w].push(ControlMessage::SendBytes(bytes)),
                    ),
                    ..self
                },
                Ok(()),
            )
        }
    }

    /// Whether an idle worker may take up peer `p`.
    pub open spec fn can_serve(self, p: u64) -> bool {
        self.has_peer(p) && !self.is_closed(p) && !self.is_assigned(p)
    }

    /// Worker `w` leaves its connection: it is idle, with no assignment and an empty inbox.
    pub open spec fn release(self, w: int) -> ServerView {
        ServerView {
            workers: self.workers.update(w, WorkerState::Idle),
            assignment: self.assignment.update(w, None),
            inboxes: self.inboxes.update(w, Seq::empty()),
            ..self
        }
    }

    /// Registering a connection keeps the state well formed, as long as a slot is free.
    pub proof fn lemma_add_well_formed(self, c: Connection)
        requires
            self.well_formed(),
            self.peer_count() < self.max_peers,
        ensures
            self.add(c).0.well_formed(),
    {
        let post = self.add(c).0;
        if !self.has_peer(c.peer_id) {
            assert forall|w: int|
                0 <= w < post.assignment.len() && (#[trigger] post.assignment[w]) is Some implies
                    post.workers[w] == WorkerState::Servicing(post.assignment[w]->Some_0)
                    && post.has_peer(post.assignment[w]->Some_0) by {
                let p = post.assignment[w]->Some_0;
                assert(self.assignment[w] == post.assignment[w]);
                assert(self.has_peer(p));
                let i = choose|i: int| 0 <= i < self.connections.len() && self.connections[i].peer_id == p;
                assert(post.connections[i] == self.connections[i]);
            }
            assert forall|i: int, j: int|
                0 <= i < post.connections.len() && 0 <= j < post.connections.len() && i != j
                    implies post.connections[i].peer_id != post.connections[j].peer_id by {
                if i < self.connections.len() && j < self.connections.len() {
                    assert(post.connections[i] == self.connections[i]);
                    assert(post.connections[j] == self.connections[j]);
                } else if i < self.connections.len() {
                    assert(post.connections[i] == self.connections[i]);
                } else {
                    assert(post.connections[j] == self.connections[j]);
                }
            }
        }
    }

    /// Removing a peer keeps the state well formed.
    pub proof fn lemma_remove_well_formed(self, p: u64)
        requires
            self.well_formed(),
        ensures
            self.remove(p).0.well_formed(),
    {
        let post = self.remove(p).0;
        if self.has_peer(p) {
            let k = self.index_of(p);
            assert(self.connections[k].peer_id == p);
            assert forall|i: int, j: int|
                0 <= i < post.connections.len() && 0 <= j < post.connections.len() && i != j
                    implies post.connections[i].peer_id != post.connections[j].peer_id by {
                let i0 = if i < k { i } else { i + 1 };
                let j0 = if j < k { j } else { j + 1 };
                assert(post.connections[i] == self.connections[i0]);
                assert(post.connections[j] == self.connections[j0]);
            }
            assert forall|w: int|
                0 <= w < post.assignment.len() && (#[trigger] post.assignment[w]) is Some implies
                    post.workers[w] == WorkerState::Servicing(post.assignment[w]->Some_0)
                    && post.has_peer(post.assignment[w]->Some_0) by {
                let q = post.assignment[w]->Some_0;
                assert(self.assignment[w] == Some(q));
                assert(q != p);
                assert(self.has_peer(q));
                let i = choose|i: int| 0 <= i < self.connections.len() && self.connections[i].peer_id == q;
                assert(i != k);
                let i1 = if i < k { i } else { i - 1 };
                assert(post.connections[i1] == self.connections[i]);
            }
            assert forall|v: int, w: int|
                0 <= v < post.assignment.len() && 0 <= w < post.assignment.len() && v != w
                    && post.assignment[v] is Some implies post.assignment[v] != post.assignment[w] by {
                assert(self.assignment[v] == post.assignment[v]);
            }
            assert(post.workers.len() == self.max_peers);
            assert(post.assignment.len() == self.max_peers);
            assert(post.inboxes.len() == self.max_peers);
            assert(post.connections.len() <= self.max_peers);
        }
    }

    /// One step of any worker keeps the state well formed.
    pub proof fn lemma_step_well_formed(self, w: int)
        requires
            self.well_formed(),
            0 <= w < self.max_peers,
        ensures
            self.step(w).0.well_formed(),
    {
        let post = self.step(w).0;
        if self.workers[w] == WorkerState::Idle && self.queue.len() > 0 {
            assert(self.assignment[w] is None);
        }
        assert forall|v: int|
            0 <= v < post.assignment.len() && (#[trigger] post.assignment[v]) is Some implies
                post.workers[v] == WorkerState::Servicing(post.assignment[v]->Some_0)
                && post.has_peer(post.assignment[v]->Some_0) by {
            assert(post.connections == self.connections);
            if v != w {
                assert(self.assignment[v] == post.assignment[v]);
                assert(self.workers[v] == post.workers[v]);
                let q = self.assignment[v]->Some_0;
                assert(self.has_peer(q));
            }
        }
        assert forall|u: int, v: int|
            0 <= u < post.assignment.len() && 0 <= v < post.assignment.len() && u != v
                && post.assignment[u] is Some implies post.assignment[u] != post.assignment[v] by {
            if u != w && v != w {
                assert(self.assignment[u] == post.assignment[u]);
                assert(self.assignment[v] == post.assignment[v]);
            } else if u == w {
                assert(self.assignment[v] == post.assignment[v]);
            } else {
                assert(self.assignment[u] == post.assignment[u]);
            }
        }
    }

    /// One step of worker `w`: the state after it, and what the worker's thread must do.
    pub open spec fn step(self, w: int) -> (ServerView, WorkerAction) {
        match self.workers[w] {
            WorkerState::Stopped => (self, WorkerAction::Stop),
            WorkerState::Idle => {
                if self.queue.len() == 0 {
                    (self, WorkerAction::Wait)
                } else {
                    match self.queue[0] {
                        DispatchEvent::Shutdown => (
                            ServerView {
                                queue: self.queue.drop_first(),
                                workers: self.workers.update(w, WorkerState::Stopped),
                                ..self
                            },
                            WorkerAction::Stop,
                        ),
                        DispatchEvent::NewConnection(p) => {
                            if self.can_serve(p) {
                                (
                                    ServerView {
                                        queue: self.queue.drop_first(),
                                        workers: self.workers.update(w, WorkerState::Servicing(p)),
                                        assignment: self.assignment.update(w, Some(p)),
                                        ..self
                                    },
                                    WorkerAction::Serve(p),
                                )
                            } else {
                                (
                                    ServerView { queue: self.queue.drop_first(), ..self },
                                    WorkerAction::Discard(p),
                                )
                            }
                        },
                    }
                }
            },
            WorkerState::Servicing(p) => {
                let inbox = self.inboxes[w];
                if inbox.len() > 0 {
                    match inbox[0] {
                        ControlMessage::Exit => (self.release(w), WorkerAction::Release(p)),
                        ControlMessage::SendBytes(b) => (
                            ServerView {
                                inboxes: self.inboxes.update(w, inbox.drop_first()),
                                ..self
                            },
                            WorkerAction::Write(p, b),
                        ),
                    }
                } else if !self.has_peer(p) || self.is_closed(p) {
                    (self.release(w), WorkerAction::Release(p))
                } else {
                    (self, WorkerAction::Read(p))
                }
            },
        }
    }
}


/// A peer-to-peer server with a fixed pool of workers, one connection per worker.
///
/// All shared state lives in this one value; the threads that run the workers reach it
/// under one guard and drive each worker with `worker_step`.
pub struct MultiThreadServer {
    peer_id: u64,
    tag: Option<String>,
    max_peers: usize,
    bind_address: String,
    connections: Vec<Connection>,
    channels: Vec<Option<u64>>,
    thread_channels: Vec<Vec<ControlMessage>>,
    workers: Vec<WorkerState>,
    queue: Vec<DispatchEvent>,
}

impl View for MultiThreadServer {
    type V = ServerView;

    closed spec fn view(&self) -> ServerView {
        ServerView {
            peer_id: self.peer_id,
            tag: self.tag,
            max_peers: self.max_peers as nat,
            bind_address: self.bind_address,
            connections: self.connections@,
            assignment: self.channels@,
            inboxes: self.thread_channels@.map_values(|v: Vec<ControlMessage>| v@),
            workers: self.workers@,
            queue: self.queue@,
        }
    }
}

pub open spec fn tag_is_valid(tag: Option<String>) -> bool {
    match tag {
        Some(t) => 0 < t@.len() <= 16,
        None => true,
    }
}

impl MultiThreadServer {
    pub open spec fn wf(&self) -> bool {
        self@.well_formed()
    }

    pub fn new(peer_id: u64, tag: Option<String>, max_peers: usize, bind_address: String) -> (r: Self)
        requires
            tag_is_valid(tag),
        ensures
            r.wf(),
            r@.peer_id == peer_id,
            r@.tag == tag,
            r@.max_peers == max_peers,
            r@.bind_address == bind_address,
            r@.connections.len() == 0,
            r@.queue.len() == 0,
            forall|w: int| 0 <= w < max_peers ==> #[trigger] r@.workers[w] == WorkerState::Idle,
            forall|w: int| 0 <= w < max_peers ==> #[trigger] r@.assignment[w] == None::<u64>,
            forall|w: int| 0 <= w < max_peers ==> #[trigger] r@.inboxes[w].len() == 0,
    {
        let mut channels: Vec<Option<u64>> = Vec::new();
        let mut thread_channels: Vec<Vec<ControlMessage>> = Vec::new();
        let mut workers: Vec<WorkerState> = Vec::new();
        let mut i: usize = 0;
        while i < max_peers
            invariant
                i <= max_peers,
                channels@.len() == i,
                thread_channels@.len() == i,
                workers@.len() == i,
                forall|w: int| 0 <= w < i ==> #[trigger] workers@[w] == WorkerState::Idle,
                forall|w: int| 0 <= w < i ==> #[trigger] channels@[w] == None::<u64>,
                forall|w: int| 0 <= w < i ==> #[trigger] thread_channels@[w]@.len() == 0,
            decreases max_peers - i,
        {
            channels.push(None);
            thread_channels.push(Vec::new());
            workers.push(WorkerState::Idle);
            i = i + 1;
        }
        MultiThreadServer {
            peer_id,
            tag,
            max_peers,
            bind_address,
            connections: Vec::new(),
            channels,
            thread_channels,
            workers,
            queue: Vec::new(),
        }
    }

    pub fn get_tag(&self) -> (r: &Option<String>)
        ensures
            *r == self@.tag,
    {
        &self.tag
    }

    pub fn get_max_peers(&self) -> (r: usize)
        ensures
            r == self@.max_peers,
    {
        self.max_peers
    }

    pub fn get_peer_id(&self) -> (r: u64)
        ensures
            r == self@.peer_id,
    {
        self.peer_id
    }

    pub fn get_peer_count(&self) -> (r: usize)
        ensures
            r == self@.peer_count(),
    {
        self.connections.len()
    }

    pub fn accept_new_connections(&self) -> (r: bool)
        requires
            self.wf(),
        ensures
            r == (self@.peer_count() < self@.max_peers),
            !r <==> self@.peer_count() == self@.max_peers,
    {
        self.get_peer_count() < self.max_peers
    }

    pub fn get_slots_available(&self) -> (r: usize)
        requires
            self.wf(),
        ensures
            r == self@.max_peers - self@.peer_count(),
    {
        self.max_peers - self.get_peer_count()
    }

    pub fn is_multi_threaded(&self) -> (r: bool)
        ensures
            r,
    {
        true
    }

    pub fn get_bind_address(&self) -> (r: &String)
        ensures
            *r == self@.bind_address,
    {
        &self.bind_address
    }

    fn find_connection(&self, peer_id: u64) -> (r: Option<usize>)
        requires
            self.wf(),
        ensures
            match r {
                Some(i) => i < self@.connections.len() && self@.connections[i as int].peer_id
                    == peer_id && self@.index_of(peer_id) == i,
                None => !self@.has_peer(peer_id),
            },
    {
        let mut i: usize = 0;
        while i < self.connections.len()
            invariant
                self.wf(),
                i <= self.connections@.len(),
                forall|j: int| 0 <= j < i ==> self.connections@[j].peer_id != peer_id,
            decreases self.connections@.len() - i,
        {
            if self.connections[i].peer_id == peer_id {
                assert(self@.connections[i as int].peer_id == peer_id);
                assert(self@.has_peer(peer_id));
                let ghost k = self@.index_of(peer_id);
                assert(self@.connections[k].peer_id == peer_id);
                assert(self@.well_formed());
                return Some(i);
            }
            i = i + 1;
        }
        None
    }

    fn find_worker(&self, peer_id: u64) -> (r: Option<usize>)
        requires
            self.wf(),
        ensures
            match r {
                Some(w) => w < self@.assignment.len() && self@.assignment[w as int] == Some(peer_id)
                    && self@.worker_of(peer_id) == w,
                None => !self@.is_assigned(peer_id),
            },
    {
        let mut w: usize = 0;
        while w < self.channels.len()
            invariant
                self.wf(),
                w <= self.channels@.len(),
                forall|v: int| 0 <= v < w ==> self.channels@[v] != Some(peer_id),
            decreases self.channels@.len() - w,
        {
            if self.channels[w] == Some(peer_id) {
                assert(self@.assignment[w as int] == Some(peer_id));
                assert(self@.is_assigned(peer_id));
                let ghost k = self@.worker_of(peer_id);
                assert(self@.assignment[k] == Some(peer_id));
                assert(self@.well_formed());
                return Some(w);
            }
            w = w + 1;
        }
        None
    }

    /// Whether this server is `peer_id` itself or holds a connection to it.
    pub fn is_connected_to(&self, peer_id: &u64) -> (r: Result<bool, P2pError>)
        requires
            self.wf(),
        ensures
            r == Ok::<bool, P2pError>(self@.peer_id == *peer_id || self@.has_peer(*peer_id)),
    {
        Ok(self.peer_id == *peer_id || self.find_connection(*peer_id).is_some())
    }

    /// Whether some registered connection has the address `peer_addr`.
    pub fn is_connected_to_addr(&self, peer_addr: &String) -> (r: Result<bool, P2pError>)
        ensures
            r == Ok::<bool, P2pError>(
                exists|i: int|
                    0 <= i < self@.connections.len() && self@.connections[i].address@ == peer_addr@,
            ),
    {
        let mut i: usize = 0;
        while i < self.connections.len()
            invariant
                i <= self.connections@.len(),
                forall|j: int| 0 <= j < i ==> self.connections@[j].address@ != peer_addr@,
            decreases self.connections@.len() - i,
        {
            if self.connections[i].address == *peer_addr {
                assert(self@.connections[i as int].address@ == peer_addr@);
                return Ok(true);
            }
            i = i + 1;
        }
        Ok(false)
    }

    /// A copy of the connection of `peer_id`.
    pub fn get_connection(&self, peer_id: &u64) -> (r: Result<Connection, P2pError>)
        requires
            self.wf(),
        ensures
            self@.has_peer(*peer_id) ==> r == Ok::<Connection, P2pError>(
                self@.connections[self@.index_of(*peer_id)],
            ),
            !self@.has_peer(*peer_id) ==> r == Err::<Connection, P2pError>(
                P2pError::PeerNotFound(*peer_id),
            ),
    {
        match self.find_connection(*peer_id) {
            Some(i) => Ok(self.connections[i].duplicate()),
            None => Err(P2pError::PeerNotFound(*peer_id)),
        }
    }

    /// Copies of all connections, in the order they were added.
    pub fn get_connections(&self) -> (r: Result<Vec<Connection>, P2pError>)
        ensures
            r is Ok,
            r->Ok_0@ == self@.connections,
    {
        let mut out: Vec<Connection> = Vec::new();
        let mut i: usize = 0;
        while i < self.connections.len()
            invariant
                i <= self.connections@.len(),
                out@ == self.connections@.subrange(0, i as int),
            decreases self.connections@.len() - i,
        {
            out.push(self.connections[i].duplicate());
            i = i + 1;
            assert(out@ =~= self.connections@.subrange(0, i as int));
        }
        assert(out@ =~= self.connections@);
        Ok(out)
    }

    /// The peer ids of all connections, in the order they were added.
    pub fn get_connections_id(&self) -> (r: Result<Vec<u64>, P2pError>)
        ensures
            r is Ok,
            r->Ok_0@ == self@.ids(),
    {
        let mut out: Vec<u64> = Vec::new();
        let mut i: usize = 0;
        while i < self.connections.len()
            invariant
                i <= self.connections@.len(),
                out@ == self@.ids().subrange(0, i as int),
            decreases self.connections@.len() - i,
        {
            out.push(self.connections[i].peer_id);
            i = i + 1;
            assert(out@ =~= self@.ids().subrange(0, i as int));
        }
        assert(out@ =~= self@.ids());
        Ok(out)
    }

    /// Registers `connection` and queues it for the next idle worker.
    pub fn add_connection(&mut self, connection: Connection) -> (r: Result<(), P2pError>)
        requires
            old(self).wf(),
            old(self)@.peer_count() < old(self)@.max_peers,
        ensures
            final(self).wf(),
            (final(self)@, r) == old(self)@.add(connection),
    {
        let peer_id = connection.peer_id;
        if self.find_connection(peer_id).is_some() {
            return Err(P2pError::PeerIdAlreadyUsed(peer_id));
        }
        let ghost pre = self@;
        self.connections.push(connection);
        self.queue.push(DispatchEvent::NewConnection(peer_id));
        proof {
            assert(self@ =~= pre.add(connection).0);
            pre.lemma_add_well_formed(connection);
        }
        Ok(())
    }

    /// Unregisters peer `peer_id` and tells the worker serving it, if any, to let it go.
    pub fn remove_connection(&mut self, peer_id: &u64) -> (r: Result<(), P2pError>)
        requires
            old(self).wf(),
        ensures
            final(self).wf(),
            (final(self)@, r) == old(self)@.remove(*peer_id),
    {
        let p = *peer_id;
        let ghost pre = self@;
        match self.find_connection(p) {
            None => Err(P2pError::PeerNotFound(p)),
            Some(i) => {
                let worker = self.find_worker(p);
                self.connections.remove(i);
                match worker {
                    Some(w) => {
                        self.channels.set(w, None);
                        let mut inbox: Vec<ControlMessage> = Vec::new();
                        self.thread_channels.set_and_swap(w, &mut inbox);
                        inbox.push(ControlMessage::Exit);
                        self.thread_channels.set_and_swap(w, &mut inbox);
                    },
                    None => {},
                }
                proof {
                    let post = pre.remove(p).0;
                    assert(pre.well_formed());
                    assert(self@.connections =~= post.connections);
                    assert(self@.assignment =~= post.assignment) by {
                        assert forall|v: int| 0 <= v < self@.assignment.len() implies
                            self@.assignment[v] == post.assignment[v] by {
                            if worker is Some && v != worker->Some_0 {
                                assert(pre.assignment[v] != Some(p));
                            }
                        }
                    }
                    assert(self@.inboxes =~= post.inboxes) by {
                        assert forall|v: int| 0 <= v < self@.inboxes.len() implies
                            self@.inboxes[v] == post.inboxes[v] by {
                            if worker is Some && v != worker->Some_0 {
                                assert(pre.assignment[v] != Some(p));
                            }
                            if worker is Some && v == worker->Some_0 {
                                assert(self@.inboxes[v] =~= post.inboxes[v]);
                            }
                        }
                    }
                    assert(self@ =~= post);
                    pre.lemma_remove_well_formed(p);
                }
                Ok(())
            },
        }
    }

    /// Hands `bytes` to the worker serving `peer_id`, which writes them in order.
    pub fn send_to_peer(&mut self, peer_id: u64, bytes: Vec<u8>) -> (r: Result<(), P2pError>)
        requires
            old(self).wf(),
        ensures
            final(self).wf(),
            (final(self)@, r) == old(self)@.send(peer_id, bytes),
    {
        let ghost pre = self@;
        match self.find_worker(peer_id) {
            None => Err(P2pError::PeerNotFound(peer_id)),
            Some(w) => {
                let mut inbox: Vec<ControlMessage> = Vec::new();
                self.thread_channels.set_and_swap(w, &mut inbox);
                inbox.push(ControlMessage::SendBytes(bytes));
                self.thread_channels.set_and_swap(w, &mut inbox);
                proof {
                    let post = pre.send(peer_id, bytes).0;
                    assert(self@.inboxes[w as int] =~= post.inboxes[w as int]);
                    assert(self@.inboxes =~= post.inboxes);
                    assert(self@ =~= post);
                }
                Ok(())
            },
        }
    }

    /// Runs one step of worker `worker_id` and says what its thread must do next.
    pub fn worker_step(&mut self, worker_id: usize) -> (r: WorkerAction)
        requires
            old(self).wf(),
            worker_id < old(self)@.max_peers,
        ensures
            final(self).wf(),
            (final(self)@, r) == old(self)@.step(worker_id as int),
    {
        let ghost pre = self@;
        let w = worker_id;
        proof {
            pre.lemma_step_well_formed(w as int);
        }
        match self.workers[w] {
            WorkerState::Stopped => WorkerAction::Stop,
            WorkerState::Idle => {
                if self.queue.len() == 0 {
                    return WorkerAction::Wait;
                }
                let event = self.queue.remove(0);
                match event {
                    DispatchEvent::Shutdown => {
                        self.workers.set(w, WorkerState::Stopped);
                        assert(self@ =~= pre.step(w as int).0);
                        WorkerAction::Stop
                    },
                    DispatchEvent::NewConnection(p) => {
                        let serve = match self.find_connection(p) {
                            Some(i) => !self.connections[i].closed && self.find_worker(p).is_none(),
                            None => false,
                        };
                        proof {
                            assert(self@.connections == pre.connections);
                            if serve {
                                assert(pre.can_serve(p));
                            } else if pre.has_peer(p) && !pre.is_assigned(p) {
                                let i = pre.index_of(p);
                                assert(pre.connections[i].closed);
                                assert(pre.is_closed(p));
                            }
                        }
                        if serve {
                            self.workers.set(w, WorkerState::Servicing(p));
                            self.channels.set(w, Some(p));
                            assert(self@ =~= pre.step(w as int).0);
                            WorkerAction::Serve(p)
                        } else {
                            assert(self@ =~= pre.step(w as int).0);
                            WorkerAction::Discard(p)
                        }
                    },
                }
            },
            WorkerState::Servicing(p) => {
                if self.thread_channels[w].len() > 0 {
                    let mut inbox: Vec<ControlMessage> = Vec::new();
                    self.thread_channels.set_and_swap(w, &mut inbox);
                    let msg = inbox.remove(0);
                    match msg {
                        ControlMessage::Exit => {
                            let mut empty: Vec<ControlMessage> = Vec::new();
                            self.thread_channels.set_and_swap(w, &mut empty);
                            self.workers.set(w, WorkerState::Idle);
                            self.channels.set(w, None);
                            proof {
                                let post = pre.step(w as int).0;
                                assert(self@.inboxes[w as int] =~= post.inboxes[w as int]);
                                assert(self@.inboxes =~= post.inboxes);
                                assert(self@ =~= post);
                            }
                            WorkerAction::Release(p)
                        },
                        ControlMessage::SendBytes(bytes) => {
                            self.thread_channels.set_and_swap(w, &mut inbox);
                            proof {
                                let post = pre.step(w as int).0;
                                assert(self@.inboxes[w as int] =~= post.inboxes[w as int]);
                                assert(self@.inboxes =~= post.inboxes);
                                assert(self@ =~= post);
                            }
                            WorkerAction::Write(p, bytes)
                        },
                    }
                } else {
                    let gone = match self.find_connection(p) {
                        Some(i) => self.connections[i].closed,
                        None => true,
                    };
                    proof {
                        if !gone {
                            assert(pre.has_peer(p));
                            if pre.is_closed(p) {
                                let j = choose|j: int| 0 <= j < pre.connections.len()
                                    && pre.connections[j].peer_id == p && pre.connections[j].closed;
                                assert(pre.well_formed());
                            }
                        } else if pre.has_peer(p) {
                            let i = pre.index_of(p);
                            assert(pre.connections[i].closed);
                        }
                    }
                    if gone {
                        let mut empty: Vec<ControlMessage> = Vec::new();
                        self.thread_channels.set_and_swap(w, &mut empty);
                        self.workers.set(w, WorkerState::Idle);
                        self.channels.set(w, None);
                        proof {
                            let post = pre.step(w as int).0;
                            assert(self@.inboxes[w as int] =~= post.inboxes[w as int]);
                            assert(self@.inboxes =~= post.inboxes);
                            assert(self@ =~= post);
                        }
                        WorkerAction::Release(p)
                    } else {
                        WorkerAction::Read(p)
                    }
                }
            },
        }
    }

    /// Removes every connection, so that every worker goes back to waiting on the queue,
    /// then queues one shutdown event per worker.
    pub fn stop(&mut self)
        requires
            old(self).wf(),
        ensures
            final(self).wf(),
            final(self)@.connections.len() == 0,
            forall|w: int| 0 <= w < final(self)@.max_peers ==> #[trigger] final(self)@.assignment[w] is None,
            final(self)@.workers == old(self)@.workers,
            final(self)@.queue == old(self)@.queue + Seq::new(
                old(self)@.max_peers,
                |i: int| DispatchEvent::Shutdown,
            ),
            final(self)@.max_peers == old(self)@.max_peers,
            final(self)@.peer_id == old(self)@.peer_id,
            final(self)@.tag == old(self)@.tag,
            final(self)@.bind_address == old(self)@.bind_address,
    {
        let ghost pre = self@;
        let ids = match self.get_connections_id() {
            Ok(ids) => ids,
            Err(_) => Vec::new(),
        };
        let mut k: usize = 0;
        while k < ids.len()
            invariant
                self.wf(),
                k <= ids@.len(),
                self@.ids() =~= ids@.subrange(k as int, ids@.len() as int),
                self@.workers == pre.workers,
                self@.queue == pre.queue,
                self@.max_peers == pre.max_peers,
                self@.peer_id == pre.peer_id,
                self@.tag == pre.tag,
                self@.bind_address == pre.bind_address,
            decreases ids@.len() - k,
        {
            let ghost cur = self@;
            let id = ids[k];
            proof {
                assert(cur.ids()[0] == id);
                assert(cur.ids().len() == cur.connections.len());
                assert(cur.ids()[0] == cur.connections[0].peer_id);
                assert(cur.has_peer(id));
                let j = cur.index_of(id);
                assert(cur.connections[j].peer_id == id);
                assert(self.wf());
                assert(j == 0);
            }
            let _removed = self.remove_connection(&id);
            k = k + 1;
            proof {
                assert(self@.connections == cur.connections.remove(0));
                assert(self@.ids().len() == ids@.len() - k);
                assert forall|i: int| 0 <= i < self@.ids().len() implies self@.ids()[i]
                    == ids@[k + i] by {
                    assert(self@.connections[i] == cur.connections[i + 1]);
                    assert(cur.ids()[i + 1] == ids@[k + i]);
                }
                assert(self@.ids() =~= ids@.subrange(k as int, ids@.len() as int));
            }
        }
        let mut n: usize = 0;
        while n < self.max_peers
            invariant
                self.wf(),
                n <= self@.max_peers,
                self@.connections.len() == 0,
                self@.workers == pre.workers,
                self@.queue == pre.queue + Seq::new(n as nat, |i: int| DispatchEvent::Shutdown),
                self@.max_peers == pre.max_peers,
                self@.peer_id == pre.peer_id,
                self@.tag == pre.tag,
                self@.bind_address == pre.bind_address,
            decreases self@.max_peers - n,
        {
            self.queue.push(DispatchEvent::Shutdown);
            n = n + 1;
            assert(self@.queue =~= pre.queue + Seq::new(n as nat, |i: int| DispatchEvent::Shutdown));
        }
        proof {
            assert forall|w: int| 0 <= w < self@.max_peers implies #[trigger] self@.assignment[w] is None by {
                if self@.assignment[w] is Some {
                    assert(self@.has_peer(self@.assignment[w]->Some_0));
                }
            }
        }
    }
}

} // verus!
