use shotover::buffered::BufferedChain;
use shotover::chain::{ChainContext, ChainError, TransformChain, Transforms};
use shotover::config::{ConsistencyBehavior, TeeBuilder, TeeConfig, TransformsConfig};
use shotover::frame::Frame;
use shotover::message::Message;
use shotover::tee::TeeMode;

fn ctx() -> ChainContext {
    ChainContext { now_secs: 1_000, tee_dropped_messages: 0, counted_requests: 0 }
}

fn chain(name: &str, transforms: Vec<Transforms>) -> TransformChain {
    TransformChain { name: name.to_string(), chain: transforms }
}

fn command(args: &[&str]) -> Message {
    Message::from_frame(Frame::Array(
        args.iter().map(|a| Frame::BulkString(a.as_bytes().to_vec())).collect(),
    ))
}

fn pong() -> Frame {
    Frame::SimpleString(b"PONG".to_vec())
}

fn is_pong(m: &Message) -> bool {
    matches!(&m.frame, Frame::SimpleString(b) if b == b"PONG")
}

fn tee(behavior: TeeMode, side: Vec<Transforms>, mismatch: Option<Vec<Transforms>>) -> Transforms {
    Transforms::Tee(
        TeeBuilder::new(
            chain("tee_chain", side),
            mismatch.map(|m| chain("mismatch_chain", m)),
            5,
            behavior,
            None,
        )
        .build(),
    )
}

#[test]
fn test_validate_no_subchain() {
    {
        let config = TeeConfig {
            behavior: Some(ConsistencyBehavior::Ignore),
            timeout_micros: None,
            chain: vec![TransformsConfig::NullSink],
            buffer_size: None,
        };
        let transform = config.get_builder();
        let result = transform.validate();
        assert_eq!(result, Vec::<String>::new());
    }

    {
        let config = TeeConfig {
            behavior: Some(ConsistencyBehavior::FailOnMismatch),
            timeout_micros: None,
            chain: vec![TransformsConfig::NullSink],
            buffer_size: None,
        };
        let transform = config.get_builder();
        let result = transform.validate();
        assert_eq!(result, Vec::<String>::new());
    }
}

#[test]
fn test_validate_invalid_chain() {
    let config = TeeConfig {
        behavior: Some(ConsistencyBehavior::SubchainOnMismatch(vec![
            TransformsConfig::NullSink,
            TransformsConfig::NullSink,
        ])),
        timeout_micros: None,
        chain: vec![TransformsConfig::NullSink],
        buffer_size: None,
    };

    let transform = config.get_builder();
    let result = transform.validate();
    let expected = vec!["Tee:", "  mismatch_chain:", "    Terminating transform \"NullSink\" is not last in chain. Terminating transform must be last in chain."];
    assert_eq!(result, expected);
}

#[test]
fn test_validate_valid_chain() {
    let config = TeeConfig {
        behavior: Some(ConsistencyBehavior::SubchainOnMismatch(vec![
            TransformsConfig::NullSink,
        ])),
        timeout_micros: None,
        chain: vec![TransformsConfig::NullSink],
        buffer_size: None,
    };

    let transform = config.get_builder();
    let result = transform.validate();
    assert_eq!(result, Vec::<String>::new());
}

#[test]
fn get_builder_defaults() {
    let config = TeeConfig {
        behavior: None,
        timeout_micros: Some(30),
        chain: vec![TransformsConfig::NullSink],
        buffer_size: None,
    };
    let builder = config.get_builder();
    assert_eq!(builder.buffer_size, 5);
    assert_eq!(builder.behavior, TeeMode::Ignore);
    assert_eq!(builder.timeout_micros, Some(30));
    assert!(builder.mismatch_chain.is_none());
    assert!(!builder.is_terminating());
    let tee = builder.build();
    assert_eq!(tee.tx.buffer_size, 5);
    assert_eq!(tee.tx.len(), 0);
}

#[test]
fn validation_inside_a_chain_is_nested() {
    let outer = chain(
        "main",
        vec![
            tee(TeeMode::SubchainOnMismatch, vec![Transforms::NullSink], Some(vec![
                Transforms::NullSink,
                Transforms::NullSink,
            ])),
            Transforms::NullSink,
        ],
    );
    assert_eq!(
        outer.validate(),
        vec![
            "main:",
            "  Tee:",
            "    mismatch_chain:",
            "      Terminating transform \"NullSink\" is not last in chain. Terminating transform must be last in chain.",
        ]
    );
}

#[test]
fn terminating_transform_not_last() {
    let c = chain("c", vec![Transforms::EchoSink, Transforms::NullSink]);
    assert_eq!(
        c.validate(),
        vec![
            "c:",
            "  Terminating transform \"EchoSink\" is not last in chain. Terminating transform must be last in chain.",
        ]
    );
}

#[test]
fn tee_ignore_with_succeeding_side() {
    let c = chain("main", vec![tee(TeeMode::Ignore, vec![Transforms::NullSink], None), Transforms::ReplySink(pong())]);
    let mut cx = ctx();
    let out = c
        .process_request(vec![command(&["PING"]), command(&["PING"]), command(&["PING"])], &mut cx)
        .unwrap();
    assert_eq!(out.len(), 3);
    assert!(out.iter().all(is_pong));
    assert_eq!(cx.tee_dropped_messages, 0);
}

#[test]
fn tee_ignore_with_failing_side() {
    let c = chain("main", vec![tee(TeeMode::Ignore, vec![Transforms::ErrorSink], None), Transforms::ReplySink(pong())]);
    let mut cx = ctx();
    let out = c
        .process_request(vec![command(&["PING"]), command(&["PING"]), command(&["PING"])], &mut cx)
        .unwrap();
    assert_eq!(out.len(), 3);
    assert!(out.iter().all(is_pong));
    assert_eq!(cx.tee_dropped_messages, 3);
}

#[test]
fn tee_fail_on_mismatch_rewrites_responses() {
    let c = chain(
        "main",
        vec![
            tee(TeeMode::FailOnMismatch, vec![Transforms::ReplySink(Frame::BulkString(b"foo".to_vec()))], None),
            Transforms::ReplySink(Frame::BulkString(b"bar".to_vec())),
        ],
    );
    let mut cx = ctx();
    let out = c.process_request(vec![command(&["GET", "k"])], &mut cx).unwrap();
    assert_eq!(out.len(), 1);
    match &out[0].frame {
        Frame::Error(text) => assert_eq!(
            text.as_slice(),
            &b"ERR The responses from the Tee subchain and down-chain did not match and behavior is set to fail on mismatch"[..]
        ),
        other => panic!("expected an error, got {:?}", other),
    }
    assert!(out[0].modified);
}

#[test]
fn tee_fail_on_mismatch_passes_equal_answers() {
    let c = chain(
        "main",
        vec![
            tee(TeeMode::FailOnMismatch, vec![Transforms::ReplySink(Frame::BulkString(b"bar".to_vec()))], None),
            Transforms::ReplySink(Frame::BulkString(b"bar".to_vec())),
        ],
    );
    let mut cx = ctx();
    let out = c.process_request(vec![command(&["GET", "k"])], &mut cx).unwrap();
    assert!(matches!(&out[0].frame, Frame::BulkString(b) if b == b"bar"));
}

#[test]
fn tee_fail_on_mismatch_propagates_side_error() {
    let c = chain(
        "main",
        vec![tee(TeeMode::FailOnMismatch, vec![Transforms::ErrorSink], None), Transforms::EchoSink],
    );
    let mut cx = ctx();
    assert_eq!(c.process_request(vec![command(&["GET", "k"])], &mut cx).unwrap_err(), ChainError::Upstream);
}

#[test]
fn tee_subchain_on_mismatch_keeps_main_answer() {
    let c = chain(
        "main",
        vec![
            tee(
                TeeMode::SubchainOnMismatch,
                vec![Transforms::NullSink],
                Some(vec![Transforms::CountingSink]),
            ),
            Transforms::EchoSink,
        ],
    );
    let mut cx = ctx();
    let out = c.process_request(vec![command(&["GET", "k"]), command(&["GET", "j"])], &mut cx).unwrap();
    assert_eq!(out.len(), 2);
    assert!(matches!(&out[1].frame, Frame::Array(a) if a.len() == 2));
    assert_eq!(cx.counted_requests, 2);
}

#[test]
fn tee_subchain_on_mismatch_ignores_mismatch_chain_errors() {
    let c = chain(
        "main",
        vec![
            tee(TeeMode::SubchainOnMismatch, vec![Transforms::NullSink], Some(vec![Transforms::ErrorSink])),
            Transforms::ReplySink(pong()),
        ],
    );
    let mut cx = ctx();
    let out = c.process_request(vec![command(&["PING"])], &mut cx).unwrap();
    assert!(is_pong(&out[0]));
}

#[test]
fn buffered_chain_backpressure() {
    let mut b = BufferedChain::new(chain("side", vec![Transforms::NullSink]), 5);
    for _ in 0..5 {
        assert_eq!(b.process_request_no_return(vec![command(&["PING"])]), Ok(()));
    }
    assert_eq!(b.process_request_no_return(vec![command(&["PING"])]), Err(ChainError::Backpressure));
    assert_eq!(b.len(), 5);
    let mut cx = ctx();
    let first = b.process_next(&mut cx).unwrap().unwrap();
    assert!(matches!(first[0].frame, Frame::Null));
    assert_eq!(b.len(), 4);
    assert_eq!(b.process_request_no_return(vec![command(&["PING"])]), Ok(()));
    let answer = b.process_request(vec![command(&["PING"]), command(&["PING"])], &mut cx).unwrap();
    assert_eq!(answer.len(), 2);
    assert_eq!(b.len(), 0);
    assert!(b.process_next(&mut cx).is_none());
}

#[test]
fn side_chain_must_end_in_a_sink() {
    let t = tee(TeeMode::Ignore, vec![Transforms::Sampler(shotover::sampler::Sampler::new())], None);
    assert_eq!(
        t.validate(),
        vec![
            "Tee:",
            "  tee_chain:",
            "    Non-terminating transform \"Sampler\" is last in chain. Last transform must be terminating.",
        ]
    );
    let empty = tee(TeeMode::Ignore, vec![], None);
    assert_eq!(empty.validate(), vec!["Tee:", "  tee_chain:", "    Chain cannot be empty"]);
    let builder = TeeConfig {
        behavior: None,
        timeout_micros: None,
        chain: vec![],
        buffer_size: None,
    }
    .get_builder();
    assert_eq!(builder.validate(), vec!["Tee:", "  tee_chain:", "    Chain cannot be empty"]);
}

#[test]
fn tee_ignore_without_room_drops_the_batch() {
    let t = Transforms::Tee(
        TeeBuilder::new(chain("tee_chain", vec![Transforms::CountingSink]), None, 0, TeeMode::Ignore, None)
            .build(),
    );
    let c = chain("main", vec![t, Transforms::ReplySink(pong())]);
    let mut cx = ctx();
    let out = c.process_request(vec![command(&["PING"]), command(&["PING"])], &mut cx).unwrap();
    assert!(out.iter().all(is_pong));
    assert_eq!(cx.tee_dropped_messages, 2);
    assert_eq!(cx.counted_requests, 0);
}
