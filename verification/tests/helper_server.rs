use task_dispatch::helper::{host_port, socket_addr};
use task_dispatch::server::{busy_step, start_servers, BusyStep, Server, SERVER_CAPACITY};

#[test]
fn socket_addr_appends_the_port() {
    assert_eq!(socket_addr("0.0.0.0:", 3334), "0.0.0.0:3334");
    assert_eq!(socket_addr("0.0.0.0", 3334), "0.0.0.03334");
    assert_eq!(socket_addr("", 0), "0");
    assert_eq!(socket_addr("x", 9), "x9");
    assert_eq!(socket_addr("x", 10), "x10");
}

#[test]
fn socket_addr_writes_negative_ports() {
    assert_eq!(socket_addr("h:", -5), "h:-5");
    assert_eq!(socket_addr("h:", i32::MIN), "h:-2147483648");
    assert_eq!(socket_addr("h:", i32::MAX), "h:2147483647");
}

#[test]
fn different_ports_give_different_addresses() {
    let a = socket_addr("0.0.0.0:", 3334);
    let b = socket_addr("0.0.0.0:", 33340);
    let c = socket_addr("0.0.0.0:", -3334);
    assert_ne!(a, b);
    assert_ne!(a, c);
}

#[test]
fn host_port_joins_with_a_colon() {
    assert_eq!(host_port("0.0.0.0", "3333"), "0.0.0.0:3333");
}

#[test]
fn new_server_has_full_capacity() {
    let s = Server::new("0.0.0.0:3334".to_string(), 10);
    assert_eq!(*s.get_size(), 1000);
    assert_eq!(*s.get_size(), SERVER_CAPACITY);
    assert_eq!(s.get_addr(), "0.0.0.0:3334");
    assert_eq!(s.get_dur_secs(), 10);
}

#[test]
fn set_size_keeps_the_rest() {
    let mut s = Server::new("a".to_string(), 3);
    s.set_size(12);
    assert_eq!(*s.get_size(), 12);
    assert_eq!(s.get_addr(), "a");
    assert_eq!(s.get_dur_secs(), 3);
}

#[test]
fn start_servers_uses_the_next_ports() {
    let servers = start_servers(3333, 3);
    assert_eq!(servers.len(), 3);
    assert_eq!(servers[0].get_addr(), "0.0.0.0:3334");
    assert_eq!(servers[1].get_addr(), "0.0.0.0:3335");
    assert_eq!(servers[2].get_addr(), "0.0.0.0:3336");
    for s in &servers {
        assert_eq!(*s.get_size(), 1000);
        assert_eq!(s.get_dur_secs(), 10);
    }
    assert!(start_servers(3333, 0).is_empty());
}

#[test]
fn busy_step_finishes_after_the_busy_time() {
    assert!(matches!(busy_step(10, 0, 10_000_000_000), BusyStep::Finished));
    assert!(matches!(busy_step(0, 0, 0), BusyStep::Finished));
}

#[test]
fn busy_step_waits_within_a_second() {
    assert!(matches!(busy_step(10, 0, 500_000_000), BusyStep::Wait));
    assert!(matches!(busy_step(10, 3, 3_900_000_000), BusyStep::Wait));
}

#[test]
fn busy_step_announces_a_new_second() {
    match busy_step(10, 0, 1_000_000_000) {
        BusyStep::Announce { remaining, singular } => {
            assert_eq!(remaining, 9);
            assert!(!singular);
        }
        _ => panic!("expected an announcement"),
    }
    match busy_step(10, 8, 9_200_000_000) {
        BusyStep::Announce { remaining, singular } => {
            assert_eq!(remaining, 1);
            assert!(singular);
        }
        _ => panic!("expected an announcement"),
    }
}
