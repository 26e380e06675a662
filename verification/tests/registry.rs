use std::sync::{Arc, Mutex};

use docsman::registry::{PushConnection, WebsocketManager};

struct FakeConn {
    log: Arc<Mutex<Vec<String>>>,
    fail: bool,
}

impl PushConnection for FakeConn {
    fn send_text(&self, message: &String) -> Result<(), ()> {
        if self.fail {
            Err(())
        } else {
            self.log.lock().unwrap().push(message.clone());
            Ok(())
        }
    }
}

fn conn(fail: bool) -> (FakeConn, Arc<Mutex<Vec<String>>>) {
    let log = Arc::new(Mutex::new(Vec::new()));
    (
        FakeConn {
            log: log.clone(),
            fail,
        },
        log,
    )
}

#[test]
fn add_then_remove_restores_size() {
    let mut m: WebsocketManager<FakeConn> = WebsocketManager::new();
    let (a, _) = conn(false);
    m.add_client(a);
    let before = m.count();
    let (b, _) = conn(false);
    let id = m.add_client(b);
    assert_eq!(m.count(), before + 1);
    m.remove_client(id);
    assert_eq!(m.count(), before);
}

#[test]
fn remove_absent_is_noop() {
    let mut m: WebsocketManager<FakeConn> = WebsocketManager::new();
    let (a, _) = conn(false);
    let id = m.add_client(a);
    m.remove_client(id.wrapping_add(1));
    assert_eq!(m.count(), 1);
    m.remove_client(id);
    assert_eq!(m.count(), 0);
    m.remove_client(id);
    assert_eq!(m.count(), 0);
}

#[test]
fn broadcast_evicts_only_failing_connection() {
    let mut m: WebsocketManager<FakeConn> = WebsocketManager::new();
    let (bad, bad_log) = conn(true);
    let (good, good_log) = conn(false);
    let bad_id = m.add_client(bad);
    let good_id = m.add_client(good);
    assert_eq!(m.count(), 2);

    let removed = m.broadcast(&String::from("hello"));

    assert_eq!(removed, vec![bad_id]);
    assert_eq!(m.count(), 1);
    assert_eq!(good_log.lock().unwrap().len(), 1);
    assert_eq!(good_log.lock().unwrap()[0], "hello");
    assert_eq!(bad_log.lock().unwrap().len(), 0);

    // The surviving connection is still reachable: a second broadcast
    // delivers to it again, and its identifier was never evicted.
    assert!(!removed.contains(&good_id));
    let removed_again = m.broadcast(&String::from("again"));
    assert!(removed_again.is_empty());
    assert_eq!(good_log.lock().unwrap().len(), 2);
}

#[test]
fn broadcast_on_empty_registry_is_quiet() {
    let mut m: WebsocketManager<FakeConn> = WebsocketManager::new();
    let removed = m.broadcast(&String::from("nobody"));
    assert!(removed.is_empty());
    assert_eq!(m.count(), 0);
}

#[test]
fn identifiers_are_distinct_across_adds() {
    let mut m: WebsocketManager<FakeConn> = WebsocketManager::new();
    let mut ids = Vec::new();
    for _ in 0..8 {
        let (c, _) = conn(false);
        ids.push(m.add_client(c));
    }
    assert_eq!(m.count(), 8);
    for i in 0..ids.len() {
        for j in 0..i {
            assert_ne!(ids[i], ids[j]);
        }
    }
}
