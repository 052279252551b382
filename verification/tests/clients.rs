use task_dispatch::client::{Client as SimpleClient, LOREM};
use task_dispatch::client_based::client::{more_to_read, reply_is_ok, server_update, Client};
use task_dispatch::task::{keep_running, plan_task, repeat_bytes, task_payload};
use task_dispatch::task_based::client::Client as TaskClient;

#[test]
fn simple_client_frames_its_text() {
    let c = SimpleClient::new();
    let buffer = c.buffer();
    let len = LOREM.len() as u64;
    assert_eq!(&buffer[0..8], &len.to_be_bytes());
    assert_eq!(&buffer[8..], LOREM.as_bytes());
    assert_eq!(c.connect_address(), "0.0.0.0:3333");
}

#[test]
fn simple_client_accepts_its_echo() {
    let c = SimpleClient::new();
    assert!(c.reply_is_ok(LOREM.as_bytes()));
    assert!(c.reply_is_ok(LOREM.to_uppercase().as_bytes()));
    assert!(!c.reply_is_ok(b"Lorem"));
}

#[test]
fn task_payload_repeats_the_digits() {
    let p = task_payload();
    assert_eq!(p.len(), 100);
    assert_eq!(p, b"0123456789".repeat(10));
    assert_eq!(repeat_bytes(b"ab", 3), b"ababab".to_vec());
    assert_eq!(repeat_bytes(b"ab", 0), Vec::<u8>::new());
}

#[test]
fn plan_task_names_and_frames() {
    let plan = plan_task();
    assert_eq!(plan.id.len(), 10);
    assert!(plan.id.chars().all(|c| c.is_ascii_alphanumeric()));
    assert_eq!(plan.size_prefix, [0, 0, 0, 0, 0, 0, 0, 100]);
    assert_eq!(plan.payload, b"0123456789".repeat(10));
}

#[test]
fn clients_stop_after_ten_minutes() {
    assert!(keep_running(0));
    assert!(keep_running(9));
    assert!(!keep_running(10));
    assert!(!keep_running(11));
}

#[test]
fn client_based_client_talks_to_the_controller() {
    let c = Client::new();
    assert_eq!(c.controller_address(), "0.0.0.0:3333");
    let plan = c.plan_task();
    assert_eq!(plan.payload.len(), 100);
}

#[test]
fn server_update_names_the_server() {
    let msg = server_update(100, b"0.0.0.0:3334");
    let mut expected = vec![0, 0, 0, 0, 0, 0, 0, 100];
    expected.extend_from_slice(b"0.0.0.0:3334");
    assert_eq!(msg, expected);
}

#[test]
fn reply_check_and_read_loop() {
    assert!(reply_is_ok(b"ABC", b"abc"));
    assert!(!reply_is_ok(b"ABC", b"abcd"));
    assert!(more_to_read(512, 512));
    assert!(!more_to_read(100, 512));
}

#[test]
fn task_based_client_frames_the_task() {
    let c = TaskClient::new();
    assert_eq!(c.controller_address(), "0.0.0.0:3333");
    let task = c.next_task();
    assert_eq!(task.id.len(), 10);
    assert_eq!(&task.buffer[0..8], &[0, 0, 0, 0, 0, 0, 0, 100]);
    assert_eq!(&task.buffer[8..], &task.payload[..]);
    assert!(task_dispatch::task_based::client::reply_is_ok(&task.payload, &task.payload));
}
