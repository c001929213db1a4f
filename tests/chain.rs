use bytes::{Bytes, BytesMut};
use redis_protocol::resp2::decode::decode as resp_decode;
use redis_protocol::resp2::encode::encode_bytes;
use redis_protocol::resp2::types::Frame as RespFrame;
use shotover::chain::{sample_batch, ChainContext, ChainError, ReturnerTransform, TransformChain, Transforms};
use shotover::frame::Frame;
use shotover::message::Message;
use shotover::ports_rewrite::{
    is_cluster_slots, rewrite_port, RedisClusterPortsRewrite, RedisClusterPortsRewriteConfig,
    RewriteError,
};
use shotover::sampler::Sampler;
use shotover::timestamp_tagging::{
    try_tag_query_message, unwrap_response, wrap_command, RedisTimestampTagger,
};

const SLOTS_PCAP: &[u8] = b"*3\r\n*4\r\n:10923\r\n:16383\r\n*3\r\n$12\r\n192.168.80.6\r\n:6379\r\n$40\r\n3a7c357ed75d2aa01fca1e14ef3735a2b2b8ffac\r\n*3\r\n$12\r\n192.168.80.3\r\n:6379\r\n$40\r\n77c01b0ddd8668fff05e3f6a8aaf5f3ccd454a79\r\n*4\r\n:5461\r\n:10922\r\n*3\r\n$12\r\n192.168.80.5\r\n:6379\r\n$40\r\n969c6215d064e68593d384541ceeb57e9520dbed\r\n*3\r\n$12\r\n192.168.80.2\r\n:6379\r\n$40\r\n3929f69990a75be7b2d49594c57fe620862e6fd6\r\n*4\r\n:0\r\n:5460\r\n*3\r\n$12\r\n192.168.80.7\r\n:6379\r\n$40\r\n15d52a65d1fc7a53e34bf9193415aa39136882b2\r\n*3\r\n$12\r\n192.168.80.4\r\n:6379\r\n$40\r\ncd023916a3528fae7e606a10d8289a665d6c47b0\r\n";

fn to_frame(frame: RespFrame) -> Frame {
    match frame {
        RespFrame::SimpleString(b) => Frame::SimpleString(b.to_vec()),
        RespFrame::Error(s) => Frame::Error(s.as_bytes().to_vec()),
        RespFrame::Integer(i) => Frame::Integer(i),
        RespFrame::BulkString(b) => Frame::BulkString(b.to_vec()),
        RespFrame::Array(items) => Frame::Array(items.into_iter().map(to_frame).collect()),
        RespFrame::Null => Frame::Null,
    }
}

fn to_resp(frame: &Frame) -> RespFrame {
    match frame {
        Frame::SimpleString(b) => RespFrame::SimpleString(Bytes::from(b.clone())),
        Frame::Error(b) => RespFrame::Error(String::from_utf8(b.clone()).unwrap().into()),
        Frame::Integer(i) => RespFrame::Integer(*i),
        Frame::BulkString(b) => RespFrame::BulkString(Bytes::from(b.clone())),
        Frame::Array(items) => RespFrame::Array(items.iter().map(to_resp).collect()),
        Frame::Null => RespFrame::Null,
    }
}

/// Decodes one whole RESP2 frame with redis-protocol.
fn decode(input: &[u8]) -> (Frame, usize) {
    let (frame, used) = resp_decode(&Bytes::copy_from_slice(input)).unwrap().unwrap();
    (to_frame(frame), used)
}

fn encode(frame: &Frame) -> Vec<u8> {
    let mut out = BytesMut::new();
    encode_bytes(&mut out, &to_resp(frame)).unwrap();
    out.to_vec()
}

/// The node addresses of a slot map and, per slot range end, its master and
/// its replicas.
fn parse_slots(frames: &[Frame]) -> (Vec<String>, Vec<(u16, String)>, Vec<(u16, String)>) {
    let mut nodes = Vec::new();
    let mut masters = Vec::new();
    let mut replicas = Vec::new();
    for entry in frames {
        let Frame::Array(slot) = entry else { panic!("bad entry") };
        let Frame::Integer(end) = slot[1] else { panic!("bad end") };
        for (i, node) in slot[2..].iter().enumerate() {
            let Frame::Array(parts) = node else { panic!("bad node") };
            let (Frame::BulkString(ip), Frame::Integer(port)) = (&parts[0], &parts[1]) else {
                panic!("bad host")
            };
            let address = format!("{}:{}", String::from_utf8(ip.clone()).unwrap(), port);
            nodes.push(address.clone());
            if i == 0 {
                masters.push((end as u16, address));
            } else {
                replicas.push((end as u16, address));
            }
        }
    }
    nodes.sort();
    masters.sort();
    replicas.sort();
    (nodes, masters, replicas)
}

fn ctx() -> ChainContext {
    ChainContext { now_secs: 1_000, tee_dropped_messages: 0, counted_requests: 0 }
}

fn bulk_array(args: &[&str]) -> Frame {
    Frame::Array(args.iter().map(|a| Frame::BulkString(a.as_bytes().to_vec())).collect())
}

fn chain(transforms: Vec<Transforms>) -> TransformChain {
    TransformChain { name: "main".to_string(), chain: transforms }
}

#[test]
fn test_is_cluster_slots() {
    let combos = [
        (b"cluster", b"slots"),
        (b"CLUSTER", b"SLOTS"),
        (b"cluster", b"SLOTS"),
        (b"CLUSTER", b"slots"),
    ];

    for combo in combos {
        let frame = Frame::Array(vec![
            Frame::BulkString(combo.0.to_vec()),
            Frame::BulkString(combo.1.to_vec()),
        ]);
        assert!(is_cluster_slots(&frame));
    }

    let frame = Frame::Array(vec![
        Frame::BulkString(b"GET".to_vec()),
        Frame::BulkString(b"key1".to_vec()),
    ]);

    assert!(!is_cluster_slots(&frame));
}

#[test]
fn test_rewrite_port() {
    let (mut raw_frame, used) = decode(SLOTS_PCAP);
    assert_eq!(used, SLOTS_PCAP.len());

    rewrite_port(&mut raw_frame, 2004).unwrap();

    let slots_frames = if let Frame::Array(frames) = &raw_frame {
        frames
    } else {
        panic!("bad input: {:?}", raw_frame)
    };

    let (slot_nodes, slot_masters, slot_replicas) = parse_slots(slots_frames);

    let nodes: Vec<String> = vec![
        "192.168.80.2:2004",
        "192.168.80.3:2004",
        "192.168.80.4:2004",
        "192.168.80.5:2004",
        "192.168.80.6:2004",
        "192.168.80.7:2004",
    ]
    .into_iter()
    .map(String::from)
    .collect();

    let masters = vec![
        (5460u16, "192.168.80.7:2004".to_string()),
        (10922u16, "192.168.80.5:2004".to_string()),
        (16383u16, "192.168.80.6:2004".to_string()),
    ];

    let replicas = vec![
        (5460u16, "192.168.80.4:2004".to_string()),
        (10922u16, "192.168.80.2:2004".to_string()),
        (16383u16, "192.168.80.3:2004".to_string()),
    ];

    assert_eq!(slot_nodes, nodes);
    assert_eq!(slot_masters, masters);
    assert_eq!(slot_replicas, replicas);
}

#[test]
fn rewritten_slot_map_survives_encoding() {
    let (slot_map, _) = decode(SLOTS_PCAP);
    let mut rewritten = slot_map.deep_copy();
    rewrite_port(&mut rewritten, 2004).unwrap();
    let bytes = encode(&rewritten);
    let (reread, used) = decode(&bytes);
    assert_eq!(used, bytes.len());
    assert!(reread.same_as(&rewritten));
    let (Frame::Array(before), Frame::Array(after)) = (&slot_map, &reread) else { panic!() };
    assert_eq!(before.len(), after.len());
    for (b, a) in before.iter().zip(after) {
        let (Frame::Array(bs), Frame::Array(as_)) = (b, a) else { panic!() };
        assert_eq!(bs.len(), as_.len());
        assert!(bs[0].same_as(&as_[0]) && bs[1].same_as(&as_[1]));
        for (bn, an) in bs[2..].iter().zip(&as_[2..]) {
            let (Frame::Array(bp), Frame::Array(ap)) = (bn, an) else { panic!() };
            assert!(matches!(ap[1], Frame::Integer(2004)));
            assert!(bp[0].same_as(&ap[0]) && bp[2].same_as(&ap[2]));
        }
    }
}

#[test]
fn cluster_slots_with_extra_argument_is_not_matched() {
    assert!(!is_cluster_slots(&bulk_array(&["CLUSTER", "SLOTS", "x"])));
    assert!(!is_cluster_slots(&Frame::Array(vec![
        Frame::BulkString(b"Cluster".to_vec()),
        Frame::BulkString(b"Slots".to_vec()),
        Frame::Integer(3),
    ])));
    assert!(is_cluster_slots(&bulk_array(&["Cluster", "Slots"])));
    assert!(!is_cluster_slots(&bulk_array(&["CLUSTER"])));
    assert!(!is_cluster_slots(&Frame::BulkString(b"CLUSTER".to_vec())));
}

#[test]
fn rewrite_port_rejects_bad_node_and_keeps_frame() {
    let mut frame = Frame::Array(vec![Frame::Array(vec![
        Frame::Integer(0),
        Frame::Integer(5460),
        Frame::Array(vec![Frame::Integer(1), Frame::Integer(6379)]),
    ])]);
    assert_eq!(rewrite_port(&mut frame, 2004), Err(RewriteError::ExpectedHostPort));
    let Frame::Array(entries) = &frame else { panic!() };
    let Frame::Array(slot) = &entries[0] else { panic!() };
    let Frame::Array(node) = &slot[2] else { panic!() };
    assert!(matches!(node[1], Frame::Integer(6379)));

    let mut frame = Frame::Array(vec![Frame::Array(vec![
        Frame::Integer(0),
        Frame::Integer(5460),
        Frame::Integer(7),
    ])]);
    assert_eq!(rewrite_port(&mut frame, 2004), Err(RewriteError::UnexpectedValue));
}

#[test]
fn ports_rewrite_chain_rewrites_cluster_slots_response() {
    let (slot_map, _) = decode(SLOTS_PCAP);
    let rewrite = RedisClusterPortsRewriteConfig { new_port: 2004 }.get_source();
    let c = chain(vec![Transforms::PortsRewrite(rewrite), Transforms::ReplySink(slot_map)]);
    let (request, _) = decode(b"*2\r\n$7\r\nCLUSTER\r\n$5\r\nSLOTS\r\n");
    let mut cx = ctx();
    let out = c.process_request(vec![Message::from_frame(request)], &mut cx).unwrap();
    assert_eq!(out.len(), 1);
    assert!(out[0].modified);
    let Frame::Array(entries) = &out[0].frame else { panic!() };
    let mut ports = 0;
    for entry in entries {
        let Frame::Array(slot) = entry else { panic!() };
        for node in &slot[2..] {
            let Frame::Array(parts) = node else { panic!() };
            assert!(matches!(parts[1], Frame::Integer(2004)));
            ports += 1;
        }
    }
    assert_eq!(ports, 6);
}

#[test]
fn ports_rewrite_leaves_other_responses() {
    let c = chain(vec![
        Transforms::PortsRewrite(RedisClusterPortsRewrite::new(2004)),
        Transforms::ReplySink(Frame::Integer(6379)),
    ]);
    let mut cx = ctx();
    let out = c.process_request(vec![Message::from_frame(bulk_array(&["GET", "k"]))], &mut cx).unwrap();
    assert!(matches!(out[0].frame, Frame::Integer(6379)));
    assert!(!out[0].modified);
}

#[test]
fn ports_rewrite_fails_on_bad_slot_map() {
    let bad = Frame::Array(vec![Frame::Array(vec![Frame::Integer(0), Frame::Integer(1), Frame::Null])]);
    let c = chain(vec![Transforms::PortsRewrite(RedisClusterPortsRewrite::new(2004)), Transforms::ReplySink(bad)]);
    let mut cx = ctx();
    let r = c.process_request(vec![Message::from_frame(bulk_array(&["cluster", "slots"]))], &mut cx);
    assert_eq!(r.unwrap_err(), ChainError::PortsRewrite);
}

#[test]
fn null_sink_answers_each_request() {
    let c = chain(vec![Transforms::NullSink]);
    let mut cx = ctx();
    let reqs: Vec<Message> = (0..4).map(|_| Message::from_frame(bulk_array(&["PING"]))).collect();
    let out = c.process_request(reqs, &mut cx).unwrap();
    assert_eq!(out.len(), 4);
    assert!(out.iter().all(|m| matches!(m.frame, Frame::Null)));
    assert!(c.process_request(Vec::new(), &mut cx).unwrap().is_empty());
}

#[test]
fn echo_chain_keeps_order() {
    let c = chain(vec![
        Transforms::Sampler(Sampler::new()),
        Transforms::PortsRewrite(RedisClusterPortsRewrite::new(1)),
        Transforms::EchoSink,
    ]);
    let mut cx = ctx();
    let reqs = vec![
        Message::from_frame(bulk_array(&["GET", "a"])),
        Message::from_frame(bulk_array(&["GET", "b"])),
        Message::from_frame(bulk_array(&["GET", "c"])),
    ];
    let out = c.process_request(reqs, &mut cx).unwrap();
    for (m, key) in out.iter().zip(["a", "b", "c"]) {
        let Frame::Array(args) = &m.frame else { panic!() };
        assert!(matches!(&args[1], Frame::BulkString(b) if b == key.as_bytes()));
    }
}

#[test]
fn chain_without_sink_ends_in_error() {
    let c = chain(vec![Transforms::Sampler(Sampler::new())]);
    let mut cx = ctx();
    let r = c.process_request(vec![Message::from_frame(Frame::Null)], &mut cx);
    assert_eq!(r.unwrap_err(), ChainError::EndOfChain);
}

#[test]
fn error_sink_fails() {
    let c = chain(vec![Transforms::ErrorSink]);
    let mut cx = ctx();
    assert_eq!(c.process_request(vec![], &mut cx).unwrap_err(), ChainError::Upstream);
}

#[test]
fn returner_answers_with_its_message() {
    let c = chain(vec![Transforms::Returner(ReturnerTransform {
        message: Message::from_frame(Frame::SimpleString(b"OK".to_vec())),
    })]);
    let mut cx = ctx();
    let out = c
        .process_request(vec![Message::from_frame(Frame::Null), Message::from_frame(Frame::Null)], &mut cx)
        .unwrap();
    assert_eq!(out.len(), 2);
    assert!(out.iter().all(|m| matches!(&m.frame, Frame::SimpleString(b) if b == b"OK")));
}

#[test]
fn sampler_sends_every_request_when_always_sampling() {
    let sampler = Sampler {
        numerator: 1,
        denominator: 1,
        sample_chain: TransformChain { name: "sample_chain".to_string(), chain: vec![Transforms::CountingSink] },
    };
    let c = chain(vec![Transforms::Sampler(sampler), Transforms::EchoSink]);
    let mut cx = ctx();
    for i in 0..1000 {
        let key = i.to_string();
        let out = c.process_request(vec![Message::from_frame(bulk_array(&["GET", &key]))], &mut cx).unwrap();
        let Frame::Array(args) = &out[0].frame else { panic!() };
        assert!(matches!(&args[1], Frame::BulkString(b) if b == key.as_bytes()));
    }
    assert_eq!(cx.counted_requests, 1000);
}

#[test]
fn sampler_draw_stays_below_denominator() {
    let s = Sampler {
        numerator: 5,
        denominator: 5,
        sample_chain: TransformChain { name: "s".to_string(), chain: vec![] },
    };
    for _ in 0..100 {
        assert!(s.should_sample());
    }
    let never = Sampler { numerator: 0, ..Sampler::new() };
    assert!(!never.should_sample());
    assert!(s.decide(4));
    assert!(!s.decide(5));
    let d = Sampler::default();
    assert_eq!((d.numerator, d.denominator), (1, 100));
}

#[test]
fn wrap_command_builds_eval_script() {
    let wrapped = wrap_command(&bulk_array(&["SET", "foo", "bar"])).unwrap();
    let expected = bulk_array(&[
        "EVAL",
        "return {redis.call('SET','foo','bar'),redis.call('OBJECT', 'IDLETIME', KEYS[1])}",
        "1",
        "foo",
    ]);
    assert!(wrapped.same_as(&expected));
    assert!(wrap_command(&bulk_array(&["PING"])).is_none());
}

#[test]
fn try_tag_query_message_marks_modified() {
    let mut m = Message::from_frame(bulk_array(&["GET", "k"]));
    assert!(try_tag_query_message(&mut m));
    assert!(m.modified);
    let mut p = Message::from_frame(bulk_array(&["PING"]));
    assert!(!try_tag_query_message(&mut p));
    assert!(!p.modified);
}

#[test]
fn unwrap_response_single_pair() {
    let mut m = Message::from_frame(Frame::Array(vec![
        Frame::BulkString(b"bar".to_vec()),
        Frame::Integer(10),
    ]));
    unwrap_response(&mut m, 1_000);
    assert!(matches!(&m.frame, Frame::BulkString(b) if b == b"bar"));
    assert!(matches!(m.meta, Some(Frame::Integer(990))));
    assert!(m.modified);
}

#[test]
fn unwrap_response_transaction() {
    let mut m = Message::from_frame(Frame::Array(vec![
        Frame::Array(vec![Frame::SimpleString(b"OK".to_vec()), Frame::Integer(3)]),
        Frame::Array(vec![Frame::Integer(7), Frame::Integer(4)]),
        Frame::Array(vec![Frame::Integer(9)]),
    ]));
    unwrap_response(&mut m, 1_000);
    let expected = Frame::Array(vec![Frame::SimpleString(b"OK".to_vec()), Frame::Integer(7)]);
    assert!(m.frame.same_as(&expected));
    let meta = m.meta.unwrap();
    assert!(meta.same_as(&Frame::Array(vec![Frame::Integer(3), Frame::Integer(4)])));
}

#[test]
fn timestamp_tagger_in_chain() {
    let c = chain(vec![
        Transforms::TimestampTagger(RedisTimestampTagger::new()),
        Transforms::ReplySink(Frame::Array(vec![Frame::BulkString(b"v".to_vec()), Frame::Integer(40)])),
    ]);
    let mut cx = ctx();
    let out = c.process_request(vec![Message::from_frame(bulk_array(&["GET", "k"]))], &mut cx).unwrap();
    assert!(matches!(&out[0].frame, Frame::BulkString(b) if b == b"v"));
    assert!(matches!(out[0].meta, Some(Frame::Integer(960))));

    let echo = chain(vec![Transforms::TimestampTagger(RedisTimestampTagger::new()), Transforms::EchoSink]);
    let out = echo.process_request(vec![Message::from_frame(bulk_array(&["PING"]))], &mut cx).unwrap();
    assert!(out[0].frame.same_as(&bulk_array(&["PING"])));
    assert!(!out[0].modified);
    assert_eq!(RedisTimestampTagger::new().get_name(), "RedisTimestampTagger");
}

#[test]
fn wire_bytes_are_kept_until_modified() {
    let raw = b"*2\r\n$3\r\nGET\r\n$1\r\nk\r\n".to_vec();
    let (frame, _) = decode(&raw);
    let m = Message::from_wire(frame, raw.clone());
    assert!(!m.modified);
    assert_eq!(m.deep_copy().raw, Some(raw.clone()));
    let c = chain(vec![Transforms::TimestampTagger(RedisTimestampTagger::new()), Transforms::EchoSink]);
    let mut cx = ctx();
    let out = c.process_request(vec![m], &mut cx).unwrap();
    assert!(out[0].modified);
    assert_eq!(out[0].raw, Some(raw));
}

#[test]
fn rewrite_error_names_the_bad_node() {
    let mut frame = Frame::Array(vec![
        Frame::Integer(1),
        Frame::Array(vec![Frame::Integer(0), Frame::Integer(1), Frame::Array(vec![Frame::Null])]),
    ]);
    assert_eq!(rewrite_port(&mut frame, 1), Err(RewriteError::ExpectedHostPort));
    let mut frame = Frame::Array(vec![Frame::Array(vec![
        Frame::Integer(0),
        Frame::Integer(1),
        Frame::BulkString(b"x".to_vec()),
    ])]);
    assert_eq!(rewrite_port(&mut frame, 1), Err(RewriteError::UnexpectedValue));
}

#[test]
fn sample_batch_runs_only_when_sampled() {
    let s = Sampler {
        numerator: 1,
        denominator: 2,
        sample_chain: TransformChain { name: "sample_chain".to_string(), chain: vec![Transforms::CountingSink] },
    };
    let reqs = vec![Message::from_frame(Frame::Null), Message::from_frame(Frame::Null)];
    let mut cx = ctx();
    sample_batch(&s, s.decide(1), &reqs, &mut cx);
    assert_eq!(cx.counted_requests, 0);
    sample_batch(&s, s.decide(0), &reqs, &mut cx);
    assert_eq!(cx.counted_requests, 2);
}
