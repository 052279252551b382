use task_dispatch::wire::{
    decode_size, encode_size, eq_ignore_ascii_case, frame_message, split_size_prefix, to_ascii_lower,
};

#[test]
fn encode_size_is_big_endian() {
    assert_eq!(encode_size(100), [0, 0, 0, 0, 0, 0, 0, 100]);
    assert_eq!(encode_size(0x0102030405060708), [1, 2, 3, 4, 5, 6, 7, 8]);
    assert_eq!(encode_size(u64::MAX), [255; 8]);
}

#[test]
fn decode_size_reads_big_endian() {
    assert_eq!(decode_size([0, 0, 0, 0, 0, 0, 1, 0]), 256);
    assert_eq!(decode_size([1, 2, 3, 4, 5, 6, 7, 8]), 0x0102030405060708);
}

#[test]
fn size_prefix_round_trips() {
    for n in [0u64, 1, 100, 1000, 65535, 1 << 40, u64::MAX] {
        assert_eq!(decode_size(encode_size(n)), n);
    }
    let bytes = [9, 8, 7, 6, 5, 4, 3, 2];
    assert_eq!(encode_size(decode_size(bytes)), bytes);
}

#[test]
fn frame_message_puts_prefix_first() {
    let msg = frame_message(3, b"abc");
    assert_eq!(msg, vec![0, 0, 0, 0, 0, 0, 0, 3, b'a', b'b', b'c']);
    assert_eq!(frame_message(7, b""), vec![0, 0, 0, 0, 0, 0, 0, 7]);
}

#[test]
fn split_reads_back_a_framed_message() {
    let body = b"0.0.0.0:3334";
    let msg = frame_message(100, body);
    assert_eq!(split_size_prefix(&msg), Some((100, body.to_vec())));
    assert_eq!(split_size_prefix(&encode_size(42)), Some((42, vec![])));
}

#[test]
fn split_refuses_a_short_message() {
    assert_eq!(split_size_prefix(&[0, 0, 0, 0, 0, 0, 1]), None);
    assert_eq!(split_size_prefix(&[]), None);
}

#[test]
fn ascii_lower_only_changes_capitals() {
    assert_eq!(to_ascii_lower(b'A'), b'a');
    assert_eq!(to_ascii_lower(b'Z'), b'z');
    assert_eq!(to_ascii_lower(b'a'), b'a');
    assert_eq!(to_ascii_lower(b'@'), b'@');
    assert_eq!(to_ascii_lower(b'['), b'[');
    assert_eq!(to_ascii_lower(200), 200);
}

#[test]
fn echo_comparison_ignores_ascii_case() {
    assert!(eq_ignore_ascii_case(b"Hello, World", b"hELLO, wORLD"));
    assert!(eq_ignore_ascii_case(b"", b""));
    assert!(!eq_ignore_ascii_case(b"abc", b"abd"));
    assert!(!eq_ignore_ascii_case(b"abc", b"ab"));
    assert!(!eq_ignore_ascii_case(b"@", b"`"));
    let text = b"0123456789".repeat(10);
    assert!(eq_ignore_ascii_case(&text, &text));
}
