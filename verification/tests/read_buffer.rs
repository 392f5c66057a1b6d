use zenoh_wasm::ws_read::{ReadBuffer, ReadStep};

fn done(step: ReadStep) -> usize {
    match step {
        ReadStep::Done(n) => n,
        ReadStep::NeedMessage => panic!("bytes were pending"),
    }
}

#[test]
fn read_buffer_splits_a_message_over_small_reads() {
    let mut rb = ReadBuffer::new();
    let mut buf = [0u8; 3];
    assert!(matches!(rb.read_step(&mut buf), ReadStep::NeedMessage));
    rb.offer(vec![1, 2, 3, 4, 5]);
    assert_eq!(done(rb.read_step(&mut buf)), 3);
    assert_eq!(buf, [1, 2, 3]);
    assert!(rb.has_pending());
    assert_eq!(done(rb.read_step(&mut buf)), 2);
    assert_eq!(buf, [4, 5, 3]);
    assert!(!rb.has_pending());
    assert!(matches!(rb.read_step(&mut buf), ReadStep::NeedMessage));
}

#[test]
fn read_buffer_hands_a_whole_message_to_a_large_buffer() {
    let mut rb = ReadBuffer::new();
    rb.offer(vec![9, 8]);
    let mut buf = [7u8; 4];
    assert_eq!(done(rb.read_step(&mut buf)), 2);
    assert_eq!(buf, [9, 8, 7, 7]);
    assert!(!rb.has_pending());
}

#[test]
fn read_buffer_ignores_an_empty_message() {
    let mut rb = ReadBuffer::new();
    rb.offer(vec![]);
    assert!(!rb.has_pending());
    let mut buf = [0u8; 2];
    assert!(matches!(rb.read_step(&mut buf), ReadStep::NeedMessage));
}

#[test]
fn read_into_an_empty_buffer_keeps_everything() {
    let mut rb = ReadBuffer::new();
    rb.offer(vec![1]);
    let mut empty: [u8; 0] = [];
    assert_eq!(done(rb.read_step(&mut empty)), 0);
    assert!(rb.has_pending());
    let mut buf = [0u8; 1];
    assert_eq!(done(rb.read_step(&mut buf)), 1);
    assert_eq!(buf, [1]);
}

#[test]
fn successive_reads_give_the_stream_in_order() {
    let message: Vec<u8> = (0u8..10).collect();
    let mut rb = ReadBuffer::new();
    rb.offer(message.clone());
    let mut out = Vec::new();
    for cap in [1usize, 4, 2, 8] {
        let mut buf = vec![0u8; cap];
        match rb.read_step(&mut buf) {
            ReadStep::Done(n) => out.extend_from_slice(&buf[..n]),
            ReadStep::NeedMessage => break,
        }
    }
    assert_eq!(out, message);
}

#[test]
fn an_exact_read_spans_messages_and_leaves_the_rest() {
    let mut rb = ReadBuffer::new();
    let mut messages = vec![vec![1u8, 2], vec![], vec![3, 4, 5]].into_iter();
    let mut buf = [0u8; 4];
    let mut filled = 0;
    while filled < buf.len() {
        match rb.read_into(&mut buf, filled) {
            ReadStep::Done(n) => filled += n,
            ReadStep::NeedMessage => rb.offer(messages.next().unwrap()),
        }
    }
    assert_eq!(buf, [1, 2, 3, 4]);
    let mut next = [0u8; 2];
    assert_eq!(done(rb.read_step(&mut next)), 1);
    assert_eq!(next, [5, 0]);
}

#[test]
fn read_into_keeps_what_is_already_filled() {
    let mut rb = ReadBuffer::new();
    rb.offer(vec![7, 8, 9]);
    let mut buf = [1u8, 2, 0, 0];
    assert_eq!(done(rb.read_into(&mut buf, 2)), 2);
    assert_eq!(buf, [1, 2, 7, 8]);
    assert!(rb.has_pending());
    let mut none = [5u8; 1];
    assert_eq!(done(rb.read_into(&mut none, 1)), 0);
    assert_eq!(none, [5]);
}
