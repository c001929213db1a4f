use vstd::prelude::*;
use vstd::string::*;
use crate::frame::{Frame, FrameV, frames_view, lemma_array_view};
use crate::message::{Message, MessageV, batch_view};
use crate::ports_rewrite::{is_bulk_word, is_bulk_word_exec};

verus! {

/// Tags each command with the idle time of its key, read in the same script,
/// and turns the idle time into a timestamp in the response's metadata.
pub struct RedisTimestampTagger {}

/// The configuration of the timestamp tagger; it has no options.
pub struct RedisTimestampTaggerConfig {}

impl RedisTimestampTagger {
    pub fn new() -> (r: Self)
        ensures
            r == (RedisTimestampTagger {}),
    {
        RedisTimestampTagger {  }
    }

    pub fn get_name(&self) -> (r: &'static str)
        ensures
            r@ == "RedisTimestampTagger"@,
    {
        "RedisTimestampTagger"
    }
}

impl Default for RedisTimestampTagger {
    fn default() -> (r: Self)
        ensures
            r == (RedisTimestampTagger {}),
    {
        RedisTimestampTagger::new()
    }
}

impl RedisTimestampTaggerConfig {
    /// Builds the transform that this configuration describes.
    pub fn get_source(&self) -> (r: RedisTimestampTagger)
        ensures
            r == (RedisTimestampTagger {}),
    {
        RedisTimestampTagger::new()
    }
}

/// The bytes of a bulk string; nothing for another frame.
pub open spec fn bulk_bytes(f: FrameV) -> Seq<u8> {
    match f {
        FrameV::BulkString(b) => b,
        _ => Seq::empty(),
    }
}

/// `b` between single quotes.
pub open spec fn quoted(b: Seq<u8>) -> Seq<u8> {
    "'".spec_bytes() + b + "'".spec_bytes()
}

/// The first `n` arguments, each quoted, separated by commas.
pub open spec fn joined_args(args: Seq<FrameV>, n: int) -> Seq<u8>
    decreases n,
{
    if n <= 0 {
        Seq::empty()
    } else if n == 1 {
        quoted(bulk_bytes(args[0]))
    } else {
        joined_args(args, n - 1) + ",".spec_bytes() + quoted(bulk_bytes(args[n - 1]))
    }
}

/// The Lua script that runs the command and then reads its key's idle time.
pub open spec fn tag_script(args: Seq<FrameV>) -> Seq<u8> {
    "return {redis.call(".spec_bytes() + joined_args(args, args.len() as int)
        + "),redis.call('OBJECT', 'IDLETIME', KEYS[1])}".spec_bytes()
}

/// A command with a key: an array of at least two bulk strings.
pub open spec fn is_keyed_command(f: FrameV) -> bool {
    match f {
        FrameV::Array(a) => a.len() >= 2 && forall|j: int| 0 <= j < a.len() ==> #[trigger] a[j] is BulkString,
        _ => false,
    }
}

/// The command wrapped in an `EVAL` of the tagging script, keyed by its first key.
pub open spec fn wrapped_command(f: FrameV) -> FrameV {
    match f {
        FrameV::Array(a) => FrameV::Array(
            seq![
                FrameV::BulkString("EVAL".spec_bytes()),
                FrameV::BulkString(tag_script(a)),
                FrameV::BulkString("1".spec_bytes()),
                a[1],
            ],
        ),
        _ => f,
    }
}

/// The request after tagging: a keyed command is wrapped and marked modified.
pub open spec fn tag_request(m: MessageV) -> MessageV {
    if is_keyed_command(m.frame) {
        MessageV { frame: wrapped_command(m.frame), modified: true, ..m }
    } else {
        m
    }
}

/// `EXEC` in upper case.
pub open spec fn exec_word() -> Seq<u8> {
    seq![69u8, 88, 69, 67]
}

/// A request whose command is `EXEC`, in any case.
pub open spec fn is_exec(f: FrameV) -> bool {
    match f {
        FrameV::Array(a) => a.len() >= 1 && is_bulk_word(a[0], exec_word()),
        _ => false,
    }
}

/// A response made of a result and the idle time of its key.
pub open spec fn is_pair(f: FrameV) -> bool {
    match f {
        FrameV::Array(a) => a.len() == 2,
        _ => false,
    }
}

/// Element `k` of an array frame.
pub open spec fn elem(f: FrameV, k: int) -> FrameV {
    match f {
        FrameV::Array(a) => a[k],
        _ => FrameV::Null,
    }
}

/// Element `k` of each pair among the first `n` frames of `vals`.
pub open spec fn pair_parts(vals: Seq<FrameV>, n: int, k: int) -> Seq<FrameV>
    decreases n,
{
    if n <= 0 {
        Seq::empty()
    } else if is_pair(vals[n - 1]) {
        pair_parts(vals, n - 1, k).push(elem(vals[n - 1], k))
    } else {
        pair_parts(vals, n - 1, k)
    }
}

/// The timestamp of a key idle for `idle` seconds at `now`; where it does not
/// fit in an `i64` the idle time is kept as it is.
pub open spec fn timestamp_of(idle: FrameV, now: int) -> FrameV {
    match idle {
        FrameV::Integer(i) => if i64::MIN <= now - i <= i64::MAX {
            FrameV::Integer(now - i)
        } else {
            idle
        },
        _ => idle,
    }
}

/// The response after unwrapping, marked modified: a list of (result, idle
/// time) pairs of a transaction becomes the list of results, with the list of
/// idle times as metadata; a single pair becomes its result, with the
/// timestamp as metadata; anything else is left as it is.
pub open spec fn unwrap_message(m: MessageV, now: int) -> MessageV {
    match m.frame {
        FrameV::Array(vals) => if vals.len() > 1 && forall|j: int|
            0 <= j < vals.len() ==> #[trigger] vals[j] is Array {
            MessageV {
                frame: FrameV::Array(pair_parts(vals, vals.len() as int, 0)),
                modified: true,
                meta: Some(FrameV::Array(pair_parts(vals, vals.len() as int, 1))),
                ..m
            }
        } else if vals.len() == 2 {
            MessageV { frame: vals[0], modified: true, meta: Some(timestamp_of(vals[1], now)), ..m }
        } else {
            MessageV { modified: true, ..m }
        },
        _ => MessageV { modified: true, ..m },
    }
}

/// What the tagger answers, given the rest of the chain's answer to the tagged
/// requests: the responses are unwrapped where every request was tagged or one
/// of them is `EXEC`.
pub open spec fn tagger_outcome<E>(reqs: Seq<MessageV>, next: Result<Seq<MessageV>, E>, now: int) -> Result<Seq<MessageV>, E> {
    match next {
        Ok(resp) => if (forall|k: int| 0 <= k < reqs.len() ==> #[trigger] is_keyed_command(reqs[k].frame))
            || (exists|k: int| 0 <= k < reqs.len() && #[trigger] is_exec(reqs[k].frame)) {
            Ok(Seq::new(resp.len(), |k: int| unwrap_message(resp[k], now)))
        } else {
            Ok(resp)
        },
        Err(e) => Err(e),
    }
}

fn push_bytes(out: &mut Vec<u8>, s: &[u8])
    ensures
        final(out)@ == old(out)@ + s@,
{
    let mut i: usize = 0;
    while i < s.len()
        invariant
            i <= s@.len(),
            out@ == old(out)@ + s@.subrange(0, i as int),
        decreases s@.len() - i,
    {
        out.push(s[i]);
        i += 1;
        assert(s@.subrange(0, i as int) =~= s@.subrange(0, i - 1) + seq![s@[i - 1]]);
    }
    assert(s@.subrange(0, s@.len() as int) =~= s@);
}

fn push_quoted(out: &mut Vec<u8>, b: &Vec<u8>)
    ensures
        final(out)@ == old(out)@ + quoted(b@),
{
    push_bytes(out, "'".as_bytes());
    push_bytes(out, b.as_slice());
    push_bytes(out, "'".as_bytes());
    assert(final(out)@ =~= old(out)@ + quoted(b@));
}

/// Wraps a keyed command in an `EVAL` of the tagging script.
pub fn wrap_command(f: &Frame) -> (r: Option<Frame>)
    ensures
        r is Some <==> is_keyed_command(f@),
        r matches Some(w) ==> w@ == wrapped_command(f@),
{
    match f {
        Frame::Array(a) => {
            proof {
                lemma_array_view(a);
            }
            let ghost av = frames_view(a@);
            if a.len() < 2 {
                return None;
            }
            let mut script: Vec<u8> = Vec::new();
            push_bytes(&mut script, "return {redis.call(".as_bytes());
            let ghost start = script@;
            let mut i: usize = 0;
            while i < a.len()
                invariant
                    i <= a@.len(),
                    av == frames_view(a@),
                    f@ == FrameV::Array(av),
                    a@.len() >= 2,
                    forall|j: int| 0 <= j < i ==> #[trigger] av[j] is BulkString,
                    script@ == start + joined_args(av, i as int),
                decreases a@.len() - i,
            {
                match &a[i] {
                    Frame::BulkString(b) => {
                        if i > 0 {
                            push_bytes(&mut script, ",".as_bytes());
                        }
                        push_quoted(&mut script, b);
                        assert(script@ =~= start + joined_args(av, i + 1));
                    },
                    _ => {
                        assert(!(av[i as int] is BulkString));
                        return None;
                    },
                }
                i += 1;
            }
            let ghost before_tail = script@;
            push_bytes(&mut script, "),redis.call('OBJECT', 'IDLETIME', KEYS[1])}".as_bytes());
            assert(script@ =~= tag_script(av));
            let key = a[1].deep_copy();
            let mut cmd: Vec<Frame> = Vec::new();
            cmd.push(Frame::BulkString(vstd::slice::slice_to_vec("EVAL".as_bytes())));
            cmd.push(Frame::BulkString(script));
            cmd.push(Frame::BulkString(vstd::slice::slice_to_vec("1".as_bytes())));
            cmd.push(key);
            proof {
                lemma_array_view(&cmd);
                if let FrameV::Array(w) = wrapped_command(f@) {
                    assert(frames_view(cmd@) =~= w);
                }
            }
            Some(Frame::Array(cmd))
        },
        _ => None,
    }
}

/// Replaces a keyed command by its wrapped form; says whether it did.
pub fn try_tag_query_message(m: &mut Message) -> (r: bool)
    ensures
        r == is_keyed_command(old(m)@.frame),
        final(m)@ == tag_request(old(m)@),
{
    match wrap_command(&m.frame) {
        Some(w) => {
            m.frame = w;
            m.modified = true;
            true
        },
        None => false,
    }
}

fn is_exec_exec(f: &Frame) -> (r: bool)
    ensures
        r == is_exec(f@),
{
    match f {
        Frame::Array(a) => {
            proof {
                lemma_array_view(a);
            }
            if a.len() < 1 {
                return false;
            }
            let word: [u8; 4] = [69u8, 88, 69, 67];
            assert(word@ =~= exec_word());
            is_bulk_word_exec(&a[0], word.as_slice())
        },
        _ => false,
    }
}

fn timestamp_exec(idle: &Frame, now: i64) -> (r: Frame)
    ensures
        r@ == timestamp_of(idle@, now as int),
{
    match idle {
        Frame::Integer(i) => {
            let d = (now as i128) - (*i as i128);
            if i64::MIN as i128 <= d && d <= i64::MAX as i128 {
                Frame::Integer(d as i64)
            } else {
                Frame::Integer(*i)
            }
        },
        other => other.deep_copy(),
    }
}

/// Unwraps a response to a tagged command, as `unwrap_message` says, with
/// `now` the current time in seconds since the Unix epoch.
pub fn unwrap_response(m: &mut Message, now: i64)
    ensures
        final(m)@ == unwrap_message(old(m)@, now as int),
{
    let ghost mv = m@;
    let replaced: Option<(Frame, Frame)> = match &m.frame {
        Frame::Array(vals) => {
            proof {
                lemma_array_view(vals);
            }
            let ghost vv = frames_view(vals@);
            let mut all_lists = true;
            let mut i: usize = 0;
            while i < vals.len()
                invariant
                    i <= vals@.len(),
                    vv == frames_view(vals@),
                    all_lists == forall|j: int| 0 <= j < i ==> #[trigger] vv[j] is Array,
                decreases vals@.len() - i,
            {
                match &vals[i] {
                    Frame::Array(_) => {
                        assert(vv[i as int] is Array);
                    },
                    _ => {
                        assert(!(vv[i as int] is Array));
                        all_lists = false;
                    },
                }
                i += 1;
            }
            if all_lists && vals.len() > 1 {
                let mut results: Vec<Frame> = Vec::new();
                let mut timestamps: Vec<Frame> = Vec::new();
                let mut k: usize = 0;
                while k < vals.len()
                    invariant
                        k <= vals@.len(),
                        vv == frames_view(vals@),
                        frames_view(results@) == pair_parts(vv, k as int, 0),
                        frames_view(timestamps@) == pair_parts(vv, k as int, 1),
                    decreases vals@.len() - k,
                {
                    match &vals[k] {
                        Frame::Array(v) => {
                            proof {
                                lemma_array_view(v);
                            }
                            if v.len() == 2 {
                                let ghost r0 = results@;
                                let ghost t0 = timestamps@;
                                results.push(v[0].deep_copy());
                                timestamps.push(v[1].deep_copy());
                                assert(frames_view(results@) =~= frames_view(r0).push(v[0]@));
                                assert(frames_view(timestamps@) =~= frames_view(t0).push(v[1]@));
                            }
                        },
                        _ => {},
                    }
                    k += 1;
                }
                proof {
                    lemma_array_view(&results);
                    lemma_array_view(&timestamps);
                }
                Some((Frame::Array(results), Frame::Array(timestamps)))
            } else if vals.len() == 2 {
                Some((vals[0].deep_copy(), timestamp_exec(&vals[1], now)))
            } else {
                None
            }
        },
        _ => None,
    };
    match replaced {
        Some((frame, meta)) => {
            m.frame = frame;
            m.meta = Some(meta);
        },
        None => {},
    }
    m.modified = true;
}

/// Tags each request; also says whether every request was tagged and whether
/// one of them is `EXEC`.
pub fn tag_requests(reqs: Vec<Message>) -> (r: (Vec<Message>, bool, bool))
    ensures
        batch_view(r.0@) == Seq::new(batch_view(reqs@).len(), |k: int| tag_request(batch_view(reqs@)[k])),
        r.1 == forall|k: int| 0 <= k < reqs@.len() ==> #[trigger] is_keyed_command(batch_view(reqs@)[k].frame),
        r.2 == exists|k: int| 0 <= k < reqs@.len() && #[trigger] is_exec(batch_view(reqs@)[k].frame),
{
    let ghost rv = batch_view(reqs@);
    let mut out: Vec<Message> = Vec::new();
    let mut all_tagged = true;
    let mut exec_block = false;
    let mut src = reqs;
    let mut i: usize = 0;
    while i < src.len()
        invariant
            i <= src@.len(),
            rv == batch_view(src@),
            out@.len() == i,
            forall|k: int| 0 <= k < i ==> out@[k]@ == tag_request(rv[k]),
            all_tagged == forall|k: int| 0 <= k < i ==> #[trigger] is_keyed_command(rv[k].frame),
            exec_block == exists|k: int| 0 <= k < i && #[trigger] is_exec(rv[k].frame),
        decreases src@.len() - i,
    {
        let mut m = src[i].deep_copy();
        let e = is_exec_exec(&m.frame);
        if e {
            exec_block = true;
        }
        assert(is_exec(rv[i as int].frame) == e);
        let tagged = try_tag_query_message(&mut m);
        assert(is_keyed_command(rv[i as int].frame) == tagged);
        all_tagged = all_tagged && tagged;
        out.push(m);
        i += 1;
    }
    assert(batch_view(out@) =~= Seq::new(rv.len(), |k: int| tag_request(rv[k])));
    (out, all_tagged, exec_block)
}

/// Unwraps each response, as `unwrap_message` says.
pub fn unwrap_responses(resp: Vec<Message>, now: i64) -> (r: Vec<Message>)
    ensures
        batch_view(r@) == Seq::new(batch_view(resp@).len(), |k: int| unwrap_message(batch_view(resp@)[k], now as int)),
{
    let ghost rv = batch_view(resp@);
    let mut out: Vec<Message> = Vec::new();
    let mut i: usize = 0;
    while i < resp.len()
        invariant
            i <= resp@.len(),
            rv == batch_view(resp@),
            out@.len() == i,
            forall|k: int| 0 <= k < i ==> out@[k]@ == unwrap_message(rv[k], now as int),
        decreases resp@.len() - i,
    {
        let mut m = resp[i].deep_copy();
        unwrap_response(&mut m, now);
        out.push(m);
        i += 1;
    }
    assert(batch_view(out@) =~= Seq::new(rv.len(), |k: int| unwrap_message(rv[k], now as int)));
    out
}

} // verus!
