use std::sync::atomic::AtomicBool;
use std::sync::Arc;
use task_dispatch::client_based::controller::{
    classify_message, start_servers, Connection, Controller, ControllerAction, ControllerEvent,
    MessageKind, SizeUpdate,
};
use task_dispatch::controller::Controller as SimpleController;

fn sizes(c: &Controller) -> Vec<u64> {
    c.get_servers().iter().map(|s| *s.get_size()).collect()
}

fn addrs(c: &Controller) -> Vec<String> {
    c.get_servers().iter().map(|s| s.get_addr().clone()).collect()
}

#[test]
fn simple_controller_starts_one_server() {
    let c = SimpleController::new();
    assert_eq!(c.get_addr(), "0.0.0.0:3333");
    assert_eq!(c.get_servers().len(), 1);
    assert_eq!(c.get_servers()[0].get_addr(), "0.0.0.0:3334");
    assert_eq!(*c.get_servers()[0].get_size(), 1000);
}

#[test]
fn simple_controller_finds_server_with_size_at_most_task() {
    let c = SimpleController::new();
    assert!(c.find_server(&999).is_none());
    let s = c.find_server(&1000).unwrap();
    assert_eq!(s.get_addr(), "0.0.0.0:3334");
    assert!(c.find_server(&5000).is_some());
}

#[test]
fn simple_controller_reuses_an_admitting_server() {
    let mut c = SimpleController::new();
    assert!(c.can_place(2000));
    let addr = c.find_or_create_server(2000).get_addr().clone();
    assert_eq!(addr, "0.0.0.0:3334");
    assert_eq!(c.get_servers().len(), 1);
}

#[test]
fn simple_controller_creates_a_server_on_demand() {
    let mut c = SimpleController::new();
    let addr = c.find_or_create_server(500).get_addr().clone();
    assert_eq!(addr, "0.0.0.03334");
    assert_eq!(c.get_servers().len(), 2);
    let addr = c.create_server().get_addr().clone();
    assert_eq!(addr, "0.0.0.03335");
    assert_eq!(c.get_servers().len(), 3);
}

#[test]
fn controller_starts_one_server_above_its_port() {
    let c = Controller::new();
    assert_eq!(c.get_addr(), "0.0.0.0:3333");
    assert_eq!(addrs(&c), vec!["0.0.0.0:3334".to_string()]);
    assert_eq!(sizes(&c), vec![1000]);
}

#[test]
fn controller_finds_first_server_with_room() {
    let mut c = Controller::new();
    assert_eq!(c.find_server(1000), Some(0));
    assert_eq!(c.find_server(1001), None);
    assert_eq!(c.create_server(), 1);
    c.update_server_size("0.0.0.0:3334".to_string(), 600, SizeUpdate::Take);
    assert_eq!(c.find_server(500), Some(1));
    assert_eq!(c.find_server(400), Some(0));
}

#[test]
fn controller_creates_servers_on_consecutive_ports() {
    let mut c = Controller::new();
    assert_eq!(c.find_or_create_server(2000), 1);
    assert_eq!(c.create_server(), 2);
    assert_eq!(
        addrs(&c),
        vec!["0.0.0.0:3334".to_string(), "0.0.0.0:3335".to_string(), "0.0.0.0:3336".to_string()]
    );
    assert_eq!(c.get_server_addr(2), "0.0.0.0:3336");
}

#[test]
fn update_server_size_takes_and_releases() {
    let mut c = Controller::new();
    c.update_server_size("0.0.0.0:3334".to_string(), 100, SizeUpdate::Take);
    assert_eq!(sizes(&c), vec![900]);
    c.update_server_size("0.0.0.0:3334".to_string(), 40, SizeUpdate::Release);
    assert_eq!(sizes(&c), vec![940]);
}

#[test]
fn task_request_gets_a_server_address() {
    let mut c = Controller::new();
    let event = ControllerEvent::TaskRequest { size: 100 };
    assert!(c.event_is_allowed(&event));
    match c.handle_event(event) {
        ControllerAction::SendAddress(a) => assert_eq!(a, "0.0.0.0:3334"),
        ControllerAction::Nothing => panic!("expected an address"),
    }
    assert_eq!(sizes(&c), vec![900]);
}

#[test]
fn full_server_makes_room_on_a_new_one() {
    let mut c = Controller::new();
    for _ in 0..10 {
        c.handle_event(ControllerEvent::TaskRequest { size: 100 });
    }
    assert_eq!(sizes(&c), vec![0]);
    match c.handle_event(ControllerEvent::TaskRequest { size: 100 }) {
        ControllerAction::SendAddress(a) => assert_eq!(a, "0.0.0.0:3335"),
        ControllerAction::Nothing => panic!("expected an address"),
    }
    assert_eq!(sizes(&c), vec![0, 900]);
}

#[test]
fn report_after_task_restores_capacity() {
    let mut c = Controller::new();
    let addr = match c.handle_event(ControllerEvent::TaskRequest { size: 250 }) {
        ControllerAction::SendAddress(a) => a,
        ControllerAction::Nothing => panic!("expected an address"),
    };
    let report = ControllerEvent::Report { size: 250, addr: Some(addr) };
    assert!(c.event_is_allowed(&report));
    assert!(matches!(c.handle_event(report), ControllerAction::Nothing));
    assert_eq!(sizes(&c), vec![1000]);
}

#[test]
fn report_without_address_changes_nothing() {
    let mut c = Controller::new();
    assert!(matches!(
        c.handle_event(ControllerEvent::Report { size: 5, addr: None }),
        ControllerAction::Nothing
    ));
    assert_eq!(sizes(&c), vec![1000]);
}

#[test]
fn events_the_controller_cannot_take() {
    let c = Controller::new();
    assert!(!c.event_is_allowed(&ControllerEvent::TaskRequest { size: 1001 }));
    assert!(!c.event_is_allowed(&ControllerEvent::Report {
        size: 1,
        addr: Some("127.0.0.1:3334".to_string()),
    }));
    assert!(!c.event_is_allowed(&ControllerEvent::Report {
        size: u64::MAX,
        addr: Some("0.0.0.0:3334".to_string()),
    }));
    assert!(c.event_is_allowed(&ControllerEvent::Report { size: 1, addr: None }));
}

#[test]
fn messages_longer_than_the_prefix_are_reports() {
    assert!(matches!(classify_message(8), MessageKind::TaskRequest));
    assert!(matches!(classify_message(0), MessageKind::TaskRequest));
    assert!(matches!(classify_message(9), MessageKind::Report));
    assert!(matches!(classify_message(20), MessageKind::Report));
}

#[test]
fn start_servers_with_no_servers() {
    assert!(start_servers(3333, 0).is_empty());
    assert!(start_servers(3333, -4).is_empty());
    let servers = start_servers(3333, 2);
    assert_eq!(servers[1].get_addr(), "0.0.0.0:3335");
}

#[test]
fn connections_compare_by_server_address() {
    let flag = Arc::new(AtomicBool::new(true));
    let a = Connection::new(flag.clone(), 0, "0.0.0.0:3334".to_string(), 100);
    let b = Connection::new(Arc::new(AtomicBool::new(false)), 3, "0.0.0.0:3334".to_string(), 7);
    let c = Connection::new(flag.clone(), 0, "0.0.0.0:3335".to_string(), 100);
    assert!(a == b);
    assert!(a != c);
    assert!(Arc::ptr_eq(a.get_running(), &flag));
}
