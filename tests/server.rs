use xelis_p2p::server::{Connection, MultiThreadServer, P2pError, WorkerAction};

fn conn(id: u64, addr: &str) -> Connection {
    Connection::new(id, addr.to_string())
}

fn server(max_peers: usize) -> MultiThreadServer {
    MultiThreadServer::new(1, Some("node".to_string()), max_peers, "127.0.0.1:2125".to_string())
}

#[test]
fn new_server_is_empty() {
    let s = server(3);
    assert_eq!(s.get_peer_count(), 0);
    assert_eq!(s.get_slots_available(), 3);
    assert!(s.accept_new_connections());
    assert_eq!(s.get_max_peers(), 3);
    assert_eq!(s.get_peer_id(), 1);
    assert_eq!(s.get_tag().as_deref(), Some("node"));
    assert_eq!(s.get_bind_address(), "127.0.0.1:2125");
    assert!(s.is_multi_threaded());
}

#[test]
fn two_slots_scenario() {
    let mut s = server(2);
    assert_eq!(s.add_connection(conn(10, "1.1.1.1:1")), Ok(()));
    assert_eq!(s.add_connection(conn(20, "2.2.2.2:2")), Ok(()));
    assert_eq!(s.get_peer_count(), 2);
    assert!(!s.accept_new_connections());
    assert_eq!(s.get_slots_available(), 0);
    assert!(matches!(s.worker_step(0), WorkerAction::Serve(10)));
    assert!(matches!(s.worker_step(1), WorkerAction::Serve(20)));

    assert_eq!(s.remove_connection(&10), Ok(()));
    assert_eq!(s.get_peer_count(), 1);
    assert!(s.accept_new_connections());
    assert!(matches!(s.worker_step(0), WorkerAction::Release(10)));

    assert_eq!(s.add_connection(conn(30, "3.3.3.3:3")), Ok(()));
    assert!(matches!(s.worker_step(0), WorkerAction::Serve(30)));
    assert_eq!(s.get_peer_count(), 2);
    assert_eq!(s.send_to_peer(30, vec![7]), Ok(()));
    assert!(matches!(s.worker_step(0), WorkerAction::Write(30, ref b) if *b == vec![7u8]));
}

#[test]
fn duplicate_peer_is_refused() {
    let mut s = server(3);
    assert_eq!(s.add_connection(conn(5, "a:1")), Ok(()));
    assert_eq!(s.add_connection(conn(5, "b:2")), Err(P2pError::PeerIdAlreadyUsed(5)));
    assert_eq!(s.get_peer_count(), 1);
    assert_eq!(s.get_connection(&5).unwrap().address, "a:1");
}

#[test]
fn remove_absent_peer() {
    let mut s = server(2);
    assert_eq!(s.add_connection(conn(5, "a:1")), Ok(()));
    assert_eq!(s.remove_connection(&6), Err(P2pError::PeerNotFound(6)));
    assert_eq!(s.get_peer_count(), 1);
    assert_eq!(s.get_connections_id(), Ok(vec![5]));
}

#[test]
fn removed_peer_is_gone() {
    let mut s = server(2);
    assert_eq!(s.add_connection(conn(5, "a:1")), Ok(()));
    assert_eq!(s.is_connected_to(&5), Ok(true));
    assert_eq!(s.remove_connection(&5), Ok(()));
    assert_eq!(s.is_connected_to(&5), Ok(false));
    assert!(matches!(s.get_connection(&5), Err(P2pError::PeerNotFound(5))));
}

#[test]
fn send_before_assignment_fails() {
    let mut s = server(2);
    assert_eq!(s.send_to_peer(9, vec![1]), Err(P2pError::PeerNotFound(9)));
    assert_eq!(s.add_connection(conn(9, "a:1")), Ok(()));
    assert_eq!(s.send_to_peer(9, vec![1]), Err(P2pError::PeerNotFound(9)));
    assert!(matches!(s.worker_step(1), WorkerAction::Serve(9)));
    assert_eq!(s.send_to_peer(9, vec![1]), Ok(()));
    assert_eq!(s.send_to_peer(9, vec![2, 3]), Ok(()));
    assert!(matches!(s.worker_step(1), WorkerAction::Write(9, ref b) if *b == vec![1u8]));
    assert!(matches!(s.worker_step(1), WorkerAction::Write(9, ref b) if *b == vec![2u8, 3]));
    assert!(matches!(s.worker_step(1), WorkerAction::Read(9)));
}

#[test]
fn idle_worker_waits() {
    let mut s = server(1);
    assert!(matches!(s.worker_step(0), WorkerAction::Wait));
}

#[test]
fn stale_event_is_discarded() {
    let mut s = server(2);
    assert_eq!(s.add_connection(conn(4, "a:1")), Ok(()));
    assert_eq!(s.remove_connection(&4), Ok(()));
    assert!(matches!(s.worker_step(0), WorkerAction::Discard(4)));
    assert!(matches!(s.worker_step(0), WorkerAction::Wait));
}

#[test]
fn stop_with_no_connections() {
    let mut s = server(2);
    s.stop();
    assert!(matches!(s.worker_step(0), WorkerAction::Stop));
    assert!(matches!(s.worker_step(1), WorkerAction::Stop));
    assert!(matches!(s.worker_step(1), WorkerAction::Stop));
}

#[test]
fn stop_with_full_server() {
    let mut s = server(2);
    assert_eq!(s.add_connection(conn(1, "a:1")), Ok(()));
    assert_eq!(s.add_connection(conn(2, "b:2")), Ok(()));
    assert!(matches!(s.worker_step(0), WorkerAction::Serve(1)));
    assert!(matches!(s.worker_step(1), WorkerAction::Serve(2)));
    s.stop();
    assert_eq!(s.get_peer_count(), 0);
    assert!(matches!(s.worker_step(0), WorkerAction::Release(1)));
    assert!(matches!(s.worker_step(1), WorkerAction::Release(2)));
    assert!(matches!(s.worker_step(0), WorkerAction::Stop));
    assert!(matches!(s.worker_step(1), WorkerAction::Stop));
}

#[test]
fn connections_in_insertion_order() {
    let mut s = server(3);
    assert_eq!(s.add_connection(conn(3, "c:3")), Ok(()));
    assert_eq!(s.add_connection(conn(1, "a:1")), Ok(()));
    assert_eq!(s.add_connection(conn(2, "b:2")), Ok(()));
    assert_eq!(s.get_connections_id(), Ok(vec![3, 1, 2]));
    let all = s.get_connections().unwrap();
    assert_eq!(all.len(), 3);
    assert_eq!(all[1].address, "a:1");
    assert_eq!(s.is_connected_to_addr(&"b:2".to_string()), Ok(true));
    assert_eq!(s.is_connected_to_addr(&"d:4".to_string()), Ok(false));
    assert_eq!(s.is_connected_to(&1), Ok(true));
    assert_eq!(s.is_connected_to(&7), Ok(false));
}

#[test]
fn self_counts_as_connected() {
    let s = server(1);
    assert_eq!(s.is_connected_to(&1), Ok(true));
}

#[test]
fn closed_connection_releases_worker() {
    let mut s = server(1);
    let mut c = conn(8, "a:1");
    c.close();
    c.close();
    assert!(c.is_closed());
    assert_eq!(s.add_connection(c), Ok(()));
    assert!(matches!(s.worker_step(0), WorkerAction::Discard(8)));
}
