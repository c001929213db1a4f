use shotover::kafka_framing::{push_length_prefixed, read_length_prefix, strip_length_prefix};

#[test]
fn length_prefix_round_trip() {
    let body: Vec<u8> = (0..300u32).map(|i| (i % 251) as u8).collect();
    let mut out = vec![9u8];
    push_length_prefixed(&mut out, &body);
    assert_eq!(&out[..5], &[9, 0, 0, 1, 44]);
    assert_eq!(&out[5..], &body[..]);
    let framed = out[1..].to_vec();
    assert_eq!(read_length_prefix(&framed), Some(300));
    assert_eq!(strip_length_prefix(&framed), Some(body));
}

#[test]
fn short_message_has_no_body() {
    assert_eq!(strip_length_prefix(&vec![0, 0, 1]), None);
    assert_eq!(read_length_prefix(&vec![0, 0, 1]), None);
    assert_eq!(strip_length_prefix(&vec![0, 0, 0, 0]), Some(vec![]));
}
