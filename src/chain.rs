use vstd::prelude::*;
use vstd::string::*;
use crate::frame::{Frame, FrameV};
use crate::message::{Message, MessageV, batch_view, copy_batch, payloads, same_payloads};
use crate::ports_rewrite::{
    RedisClusterPortsRewrite, is_cluster_slots, is_cluster_slots_spec, rewrite_port,
    rewrite_slot_map, slot_map_ok,
};
use crate::tee::{Tee, TeeMode, tee_outcome, replace_with_mismatch_errors, record_side_outcome};
use crate::sampler::Sampler;
use crate::timestamp_tagging::{RedisTimestampTagger, tag_request, tagger_outcome, tag_requests, unwrap_responses};

verus! {

broadcast use {
    vstd::std_specs::vec::axiom_vec_index_decreases,
    vstd::std_specs::vec::axiom_vec_decreases_to_view,
    vstd::seq::axiom_seq_index_decreases,
};

/// A sink that answers every request with `message`.
pub struct ReturnerTransform {
    pub message: Message,
}

/// The kinds of transform a chain can hold.
pub enum Transforms {
    /// Answers every request with a null frame.
    NullSink,
    /// Answers every request with the request itself.
    EchoSink,
    /// Answers every request with the given frame.
    ReplySink(Frame),
    /// Fails every batch with an upstream error.
    ErrorSink,
    /// Answers every request with a null frame and counts the requests.
    CountingSink,
    Returner(ReturnerTransform),
    PortsRewrite(RedisClusterPortsRewrite),
    TimestampTagger(RedisTimestampTagger),
    Tee(Tee),
    Sampler(Sampler),
}

/// Why a chain failed to answer a batch.
#[derive(Clone, Copy, Debug, PartialEq, Eq, Structural)]
pub enum ChainError {
    /// A non-terminating transform was last, so there was nothing to call next.
    EndOfChain,
    /// A sink failed to reach its upstream.
    Upstream,
    /// A `CLUSTER SLOTS` response could not be rewritten.
    PortsRewrite,
    /// A buffered chain's queue was full.
    Backpressure,
    /// A reply did not come back in time.
    Timeout,
}

/// What the chain reads from, and counts into, the world around it.
pub struct ChainContext {
    /// Seconds since the Unix epoch, read once for the batch.
    pub now_secs: i64,
    /// Messages whose copy a tee in `Ignore` mode failed to deliver.
    pub tee_dropped_messages: u64,
    /// Requests that reached a counting sink.
    pub counted_requests: u64,
}

/// `a + n`, held at the largest `u64`.
pub open spec fn sat_add(a: u64, n: int) -> u64 {
    if a + n > u64::MAX {
        u64::MAX
    } else {
        (a + n) as u64
    }
}

/// `a + n`, held at the largest `u64`.
pub fn saturating_add(a: u64, n: usize) -> (r: u64)
    ensures
        r == sat_add(a, n as int),
{
    if a > u64::MAX - (n as u64) {
        u64::MAX
    } else {
        a + n as u64
    }
}

/// `n` unmodified responses carrying `f`.
pub open spec fn replies(n: nat, f: FrameV) -> Seq<MessageV> {
    Seq::new(n, |j: int| MessageV { frame: f, modified: false, meta: None, raw: None })
}

/// The responses after the port rewrite: each response to a `CLUSTER SLOTS`
/// request has its ports replaced and is marked modified. It fails where such
/// a response is missing or does not have the shape of a slot map.
pub open spec fn rewrite_responses(reqs: Seq<MessageV>, resp: Seq<MessageV>, port: int) -> Result<
    Seq<MessageV>,
    ChainError,
> {
    if exists|k: int|
        0 <= k < reqs.len() && #[trigger] is_cluster_slots_spec(reqs[k].frame) && (k >= resp.len()
            || !slot_map_ok(resp[k].frame)) {
        Err(ChainError::PortsRewrite)
    } else {
        Ok(
            Seq::new(
                resp.len(),
                |k: int|
                    if k < reqs.len() && is_cluster_slots_spec(reqs[k].frame) {
                        MessageV {
                            frame: rewrite_slot_map(resp[k].frame, port),
                            modified: true,
                            ..resp[k]
                        }
                    } else {
                        resp[k]
                    },
            ),
        )
    }
}

/// What the transforms of `ts` from position `i` on answer to `reqs`.
pub open spec fn run(ts: Seq<Transforms>, i: int, reqs: Seq<MessageV>, now: int) -> Result<
    Seq<MessageV>,
    ChainError,
>
    decreases ts, ts.len() - i,
{
    if i < 0 || i >= ts.len() {
        Err(ChainError::EndOfChain)
    } else {
        match ts[i] {
            Transforms::NullSink => Ok(replies(reqs.len(), FrameV::Null)),
            Transforms::CountingSink => Ok(replies(reqs.len(), FrameV::Null)),
            Transforms::EchoSink => Ok(reqs),
            Transforms::ReplySink(f) => Ok(replies(reqs.len(), f@)),
            Transforms::ErrorSink => Err(ChainError::Upstream),
            Transforms::Returner(r) => Ok(Seq::new(reqs.len(), |j: int| r.message@)),
            Transforms::PortsRewrite(p) => match run(ts, i + 1, reqs, now) {
                Ok(resp) => rewrite_responses(reqs, resp, p.new_port as int),
                Err(e) => Err(e),
            },
            Transforms::TimestampTagger(_) => tagger_outcome(
                reqs,
                run(ts, i + 1, Seq::new(reqs.len(), |k: int| tag_request(reqs[k])), now),
                now,
            ),
            Transforms::Tee(tee) => tee_outcome(
                tee.behavior,
                run(tee.tx.chain.chain@, 0, reqs, now),
                run(ts, i + 1, reqs, now),
            ),
            Transforms::Sampler(_) => run(ts, i + 1, reqs, now),
        }
    }
}

/// The context with `n` more requests counted.
pub open spec fn counted(c: ChainContext, n: nat) -> ChainContext {
    ChainContext { counted_requests: sat_add(c.counted_requests, n as int), ..c }
}

/// The context with `n` more messages dropped by a tee.
pub open spec fn dropped(c: ChainContext, n: nat) -> ChainContext {
    ChainContext { tee_dropped_messages: sat_add(c.tee_dropped_messages, n as int), ..c }
}

/// Whether a tee in `SubchainOnMismatch` mode sends the requests to its
/// mismatch chain: both answers came back, they differ, and it has one.
pub open spec fn sends_to_mismatch(
    tee: Tee,
    side: Result<Seq<MessageV>, ChainError>,
    main: Result<Seq<MessageV>, ChainError>,
) -> bool {
    &&& tee.mismatch_chain is Some
    &&& side is Ok
    &&& main is Ok
    &&& payloads(main->Ok_0) != payloads(side->Ok_0)
}

/// Names a context through which a run may pass.
pub open spec fn passes_via(c: ChainContext) -> bool {
    true
}

/// Running the transforms of `ts` from position `i` on over `reqs` can take
/// the context from `a` to `b`: counting sinks count the requests they see, a
/// tee in `Ignore` mode counts the batch as dropped where its side queue has
/// no room for it or its side chain fails, a tee in `SubchainOnMismatch` mode runs the requests through its
/// mismatch chain on a mismatch, and a sampler runs the requests through its
/// sample chain exactly where its draw says so. Side chains run before the
/// rest of the chain.
pub open spec fn effect(
    ts: Seq<Transforms>,
    i: int,
    reqs: Seq<MessageV>,
    now: int,
    a: ChainContext,
    b: ChainContext,
) -> bool
    decreases ts, ts.len() - i,
{
    if i < 0 || i >= ts.len() {
        b == a
    } else {
        match ts[i] {
            Transforms::CountingSink => b == counted(a, reqs.len()),
            Transforms::PortsRewrite(_) => effect(ts, i + 1, reqs, now, a, b),
            Transforms::TimestampTagger(_) => effect(
                ts,
                i + 1,
                Seq::new(reqs.len(), |k: int| tag_request(reqs[k])),
                now,
                a,
                b,
            ),
            Transforms::Tee(tee) => match tee.behavior {
                TeeMode::Ignore => if tee.tx.pending().len() < tee.tx.buffer_size {
                    exists|m: ChainContext|
                        #[trigger] passes_via(m) && effect(tee.tx.chain.chain@, 0, reqs, now, a, m)
                            && effect(
                            ts,
                            i + 1,
                            reqs,
                            now,
                            if run(tee.tx.chain.chain@, 0, reqs, now) is Err {
                                dropped(m, reqs.len())
                            } else {
                                m
                            },
                            b,
                        )
                } else {
                    effect(ts, i + 1, reqs, now, dropped(a, reqs.len()), b)
                },
                TeeMode::FailOnMismatch => exists|m: ChainContext|
                    #[trigger] passes_via(m) && effect(tee.tx.chain.chain@, 0, reqs, now, a, m) && effect(
                        ts,
                        i + 1,
                        reqs,
                        now,
                        m,
                        b,
                    ),
                TeeMode::SubchainOnMismatch => exists|m: ChainContext|
                    #[trigger] passes_via(m) && effect(tee.tx.chain.chain@, 0, reqs, now, a, m)
                        && exists|k: ChainContext|
                        #[trigger] passes_via(k) && effect(ts, i + 1, reqs, now, m, k) && if sends_to_mismatch(
                            tee,
                            run(tee.tx.chain.chain@, 0, reqs, now),
                            run(ts, i + 1, reqs, now),
                        ) {
                            effect(tee.mismatch_chain->Some_0.chain.chain@, 0, reqs, now, k, b)
                        } else {
                            b == k
                        },
            },
            Transforms::Sampler(s) => exists|m: ChainContext|
                #[trigger] passes_via(m) && ((s.may_decide(true) && effect(
                    s.sample_chain.chain@,
                    0,
                    reqs,
                    now,
                    a,
                    m,
                )) || (s.may_decide(false) && m == a)) && effect(ts, i + 1, reqs, now, m, b),
            _ => b == a,
        }
    }
}

/// The view of a chain's answer.
pub open spec fn result_view(r: Result<Vec<Message>, ChainError>) -> Result<Seq<MessageV>, ChainError> {
    match r {
        Ok(v) => Ok(batch_view(v@)),
        Err(e) => Err(e),
    }
}

/// `n` unmodified responses carrying a copy of `f`.
fn reply_batch(n: usize, f: &Frame) -> (r: Vec<Message>)
    ensures
        batch_view(r@) == replies(n as nat, f@),
{
    let mut out: Vec<Message> = Vec::new();
    let mut i: usize = 0;
    while i < n
        invariant
            i <= n,
            out.len() == i,
            forall|j: int|
                0 <= j < i ==> out[j]@ == (MessageV { frame: f@, modified: false, meta: None, raw: None }),
        decreases n - i,
    {
        out.push(Message::from_frame(f.deep_copy()));
        i += 1;
    }
    assert(batch_view(out@) =~= replies(n as nat, f@));
    out
}

/// `n` copies of `m`.
fn repeat_message(n: usize, m: &Message) -> (r: Vec<Message>)
    ensures
        batch_view(r@) == Seq::new(n as nat, |j: int| m@),
{
    let mut out: Vec<Message> = Vec::new();
    let mut i: usize = 0;
    while i < n
        invariant
            i <= n,
            out.len() == i,
            forall|j: int| 0 <= j < i ==> out[j]@ == m@,
        decreases n - i,
    {
        out.push(m.deep_copy());
        i += 1;
    }
    assert(batch_view(out@) =~= Seq::new(n as nat, |j: int| m@));
    out
}

/// Marks the requests that are `CLUSTER SLOTS` requests.
fn cluster_slots_flags(reqs: &Vec<Message>) -> (r: Vec<bool>)
    ensures
        r@.len() == reqs@.len(),
        forall|k: int| 0 <= k < r@.len() ==> r@[k] == is_cluster_slots_spec(reqs@[k].frame@),
{
    let mut out: Vec<bool> = Vec::new();
    let mut i: usize = 0;
    while i < reqs.len()
        invariant
            i <= reqs.len(),
            out.len() == i,
            forall|k: int| 0 <= k < i ==> out@[k] == is_cluster_slots_spec(reqs@[k].frame@),
        decreases reqs.len() - i,
    {
        out.push(is_cluster_slots(&reqs[i].frame));
        i += 1;
    }
    out
}

/// Rewrites the responses that `flags` marks, as `rewrite_responses` says.
fn apply_ports_rewrite(
    flags: &Vec<bool>,
    resp: Vec<Message>,
    port: u16,
    Ghost(reqs): Ghost<Seq<MessageV>>,
) -> (r: Result<Vec<Message>, ChainError>)
    requires
        flags@.len() == reqs.len(),
        forall|k: int| 0 <= k < reqs.len() ==> flags@[k] == is_cluster_slots_spec(reqs[k].frame),
    ensures
        result_view(r) == rewrite_responses(reqs, batch_view(resp@), port as int),
{
    let ghost rv = batch_view(resp@);
    let mut k: usize = 0;
    while k < flags.len()
        invariant
            k <= flags@.len(),
            flags@.len() == reqs.len(),
            forall|j: int| 0 <= j < reqs.len() ==> flags@[j] == is_cluster_slots_spec(reqs[j].frame),
            forall|j: int| 0 <= j < k && flags@[j] ==> j < resp@.len(),
        decreases flags.len() - k,
    {
        if flags[k] && k >= resp.len() {
            assert(is_cluster_slots_spec(reqs[k as int].frame));
            return Err(ChainError::PortsRewrite);
        }
        k += 1;
    }
    let mut out: Vec<Message> = Vec::new();
    let mut i: usize = 0;
    while i < resp.len()
        invariant
            i <= resp@.len(),
            out@.len() == i,
            rv == batch_view(resp@),
            flags@.len() == reqs.len(),
            forall|j: int| 0 <= j < reqs.len() ==> flags@[j] == is_cluster_slots_spec(reqs[j].frame),
            forall|j: int| 0 <= j < reqs.len() && flags@[j] ==> j < resp@.len(),
            forall|j: int| 0 <= j < i && j < reqs.len() && #[trigger] is_cluster_slots_spec(reqs[j].frame) ==> slot_map_ok(rv[j].frame),
            forall|j: int| 0 <= j < i ==> out@[j]@ == (if j < reqs.len() && is_cluster_slots_spec(reqs[j].frame) {
                MessageV { frame: rewrite_slot_map(rv[j].frame, port as int), modified: true, ..rv[j] }
            } else {
                rv[j]
            }),
        decreases resp.len() - i,
    {
        let mut m = resp[i].deep_copy();
        if i < flags.len() && flags[i] {
            match rewrite_port(&mut m.frame, port) {
                Ok(()) => {
                    m.modified = true;
                },
                Err(_) => {
                    assert(is_cluster_slots_spec(reqs[i as int].frame) && !slot_map_ok(rv[i as int].frame));
                    return Err(ChainError::PortsRewrite);
                },
            }
        }
        out.push(m);
        i += 1;
    }
    proof {
        assert forall|j: int|
            0 <= j < reqs.len() && #[trigger] is_cluster_slots_spec(reqs[j].frame) implies !(j
                >= rv.len() || !slot_map_ok(rv[j].frame)) by {
            assert(flags@[j]);
        }
        if let Ok(s) = rewrite_responses(reqs, rv, port as int) {
            assert(batch_view(out@) =~= s);
        }
    }
    Ok(out)
}

/// Runs the transforms of `ts` from position `i` on over `reqs`: each
/// non-terminating transform calls the next exactly once; a sink answers.
pub fn process(ts: &Vec<Transforms>, i: usize, reqs: Vec<Message>, ctx: &mut ChainContext) -> (r:
    Result<Vec<Message>, ChainError>)
    ensures
        result_view(r) == run(ts@, i as int, batch_view(reqs@), old(ctx).now_secs as int),
        final(ctx).now_secs == old(ctx).now_secs,
        effect(ts@, i as int, batch_view(reqs@), old(ctx).now_secs as int, *old(ctx), *final(ctx)),
    decreases ts@, ts@.len() - i,
{
    let ghost rq = batch_view(reqs@);
    let ghost now = ctx.now_secs as int;
    let ghost c0 = *ctx;
    if i >= ts.len() {
        return Err(ChainError::EndOfChain);
    }
    let n = reqs.len();
    assert(decreases_to!(ts@ => ts@[i as int]));
    match &ts[i] {
        Transforms::NullSink => {
            assert(*ctx == c0);
            Ok(reply_batch(n, &Frame::Null))
        },
        Transforms::CountingSink => {
            ctx.counted_requests = saturating_add(ctx.counted_requests, n);
            Ok(reply_batch(n, &Frame::Null))
        },
        Transforms::EchoSink => {
            assert(*ctx == c0);
            Ok(reqs)
        },
        Transforms::ReplySink(f) => {
            assert(*ctx == c0);
            Ok(reply_batch(n, f))
        },
        Transforms::ErrorSink => {
            assert(*ctx == c0);
            Err(ChainError::Upstream)
        },
        Transforms::Returner(rt) => {
            assert(*ctx == c0);
            let out = repeat_message(n, &rt.message);
            Ok(out)
        },
        Transforms::PortsRewrite(p) => {
            let flags = cluster_slots_flags(&reqs);
            match process(ts, i + 1, reqs, ctx) {
                Ok(resp) => apply_ports_rewrite(&flags, resp, p.new_port, Ghost(rq)),
                Err(e) => Err(e),
            }
        },
        Transforms::TimestampTagger(_) => {
            let (tagged, all_tagged, exec_block) = tag_requests(reqs);
            match process(ts, i + 1, tagged, ctx) {
                Ok(resp) => {
                    if all_tagged || exec_block {
                        Ok(unwrap_responses(resp, ctx.now_secs))
                    } else {
                        Ok(resp)
                    }
                },
                Err(e) => Err(e),
            }
        },
        Transforms::Tee(tee) => {
            assert(decreases_to!(ts@ => tee.tx.chain.chain@));
            let side_reqs = copy_batch(&reqs);
            match tee.behavior {
                TeeMode::Ignore => {
                    if tee.tx.len() >= tee.tx.buffer_size {
                        record_side_outcome(true, n, ctx);
                        return process(ts, i + 1, reqs, ctx);
                    }
                    let side = process(&tee.tx.chain.chain, 0, side_reqs, ctx);
                    let ghost m = *ctx;
                    record_side_outcome(side.is_err(), n, ctx);
                    let ghost k = *ctx;
                    assert(k == (if run(tee.tx.chain.chain@, 0, rq, now) is Err {
                        dropped(m, rq.len())
                    } else {
                        m
                    }));
                    let main = process(ts, i + 1, reqs, ctx);
                    assert(effect(ts@, i + 1, rq, now, k, *ctx));
                    assert(effect(tee.tx.chain.chain@, 0, rq, now, c0, m));
                    assert(passes_via(m));
                    assert(effect(ts@, i as int, rq, now, c0, *ctx));
                    main
                },
                TeeMode::FailOnMismatch => {
                    let side = process(&tee.tx.chain.chain, 0, side_reqs, ctx);
                    let ghost m = *ctx;
                    let main = process(ts, i + 1, reqs, ctx);
                    assert(effect(tee.tx.chain.chain@, 0, rq, now, c0, m));
                    assert(passes_via(m));
                    match side {
                        Err(e) => Err(e),
                        Ok(s) => match main {
                            Err(e) => Err(e),
                            Ok(m) => {
                                if same_payloads(&m, &s) {
                                    Ok(m)
                                } else {
                                    Ok(replace_with_mismatch_errors(m))
                                }
                            },
                        },
                    }
                },
                TeeMode::SubchainOnMismatch => {
                    let failed = copy_batch(&reqs);
                    let side = process(&tee.tx.chain.chain, 0, side_reqs, ctx);
                    let ghost m = *ctx;
                    let main = process(ts, i + 1, reqs, ctx);
                    let ghost k = *ctx;
                    assert(effect(tee.tx.chain.chain@, 0, rq, now, c0, m));
                    assert(effect(ts@, i + 1, rq, now, m, k));
                    assert(passes_via(m) && passes_via(k));
                    let mismatch = match (&side, &main) {
                        (Ok(sv), Ok(mv)) => !same_payloads(mv, sv),
                        _ => false,
                    };
                    let ghost sends = sends_to_mismatch(
                        *tee,
                        run(tee.tx.chain.chain@, 0, rq, now),
                        run(ts@, i + 1, rq, now),
                    );
                    assert(sends <==> (mismatch && tee.mismatch_chain is Some));
                    if mismatch {
                        if let Some(mc) = &tee.mismatch_chain {
                            assert(decreases_to!(ts@ => mc.chain.chain@));
                            let _ = process(&mc.chain.chain, 0, failed, ctx);
                        }
                    }
                    assert(if sends {
                        effect(tee.mismatch_chain->Some_0.chain.chain@, 0, rq, now, k, *ctx)
                    } else {
                        *ctx == k
                    });
                    assert(effect(ts@, i as int, rq, now, c0, *ctx));
                    match side {
                        Err(e) => Err(e),
                        Ok(_) => main,
                    }
                },
            }
        },
        Transforms::Sampler(sampler) => {
            let sampled = sampler.should_sample();
            assert(decreases_to!(ts@ => sampler.sample_chain.chain@));
            sample_batch(sampler, sampled, &reqs, ctx);
            let ghost m = *ctx;
            let r = process(ts, i + 1, reqs, ctx);
            assert(sampler.may_decide(sampled));
            assert(effect(ts@, i + 1, rq, now, m, *ctx));
            assert(passes_via(m));
            r
        },
    }
}

/// Sends a copy of `reqs` through the sampler's sample chain where the batch
/// is sampled; the answer is dropped, and nothing happens otherwise.
pub fn sample_batch(sampler: &Sampler, sampled: bool, reqs: &Vec<Message>, ctx: &mut ChainContext)
    ensures
        sampled ==> effect(
            sampler.sample_chain.chain@,
            0,
            batch_view(reqs@),
            old(ctx).now_secs as int,
            *old(ctx),
            *final(ctx),
        ),
        !sampled ==> *final(ctx) == *old(ctx),
        final(ctx).now_secs == old(ctx).now_secs,
    decreases sampler.sample_chain.chain@, sampler.sample_chain.chain@.len() + 1,
{
    if sampled {
        let sample = copy_batch(reqs);
        let _ = process(&sampler.sample_chain.chain, 0, sample, ctx);
    }
}

/// An ordered sequence of transforms with a name.
pub struct TransformChain {
    pub name: String,
    pub chain: Vec<Transforms>,
}

impl Transforms {
    pub open spec fn terminating(&self) -> bool {
        match self {
            Transforms::NullSink | Transforms::EchoSink | Transforms::ReplySink(_)
            | Transforms::ErrorSink | Transforms::CountingSink | Transforms::Returner(_) => true,
            _ => false,
        }
    }

    pub open spec fn name_spec(&self) -> Seq<char> {
        match self {
            Transforms::NullSink => "NullSink"@,
            Transforms::EchoSink => "EchoSink"@,
            Transforms::ReplySink(_) => "ReplySink"@,
            Transforms::ErrorSink => "ErrorSink"@,
            Transforms::CountingSink => "CountingSink"@,
            Transforms::Returner(_) => "returner"@,
            Transforms::PortsRewrite(_) => "RedisClusterPortsRewrite"@,
            Transforms::TimestampTagger(_) => "RedisTimestampTagger"@,
            Transforms::Tee(_) => "Tee"@,
            Transforms::Sampler(_) => "Sampler"@,
        }
    }

    /// Whether the transform answers requests itself instead of passing them on.
    pub fn is_terminating(&self) -> (r: bool)
        ensures
            r == self.terminating(),
    {
        match self {
            Transforms::NullSink | Transforms::EchoSink | Transforms::ReplySink(_)
            | Transforms::ErrorSink | Transforms::CountingSink | Transforms::Returner(_) => true,
            _ => false,
        }
    }

    pub fn get_name(&self) -> (r: &'static str)
        ensures
            r@ == self.name_spec(),
    {
        match self {
            Transforms::NullSink => "NullSink",
            Transforms::EchoSink => "EchoSink",
            Transforms::ReplySink(_) => "ReplySink",
            Transforms::ErrorSink => "ErrorSink",
            Transforms::CountingSink => "CountingSink",
            Transforms::Returner(_) => "returner",
            Transforms::PortsRewrite(_) => "RedisClusterPortsRewrite",
            Transforms::TimestampTagger(_) => "RedisTimestampTagger",
            Transforms::Tee(_) => "Tee",
            Transforms::Sampler(_) => "Sampler",
        }
    }
}

/// Each line indented by two spaces.
pub open spec fn indent(lines: Seq<Seq<char>>) -> Seq<Seq<char>> {
    Seq::new(lines.len(), |i: int| "  "@ + lines[i])
}

/// `lines` under a heading `name:`, or nothing where there are no lines.
pub open spec fn headed(name: Seq<char>, lines: Seq<Seq<char>>) -> Seq<Seq<char>> {
    if lines.len() == 0 {
        lines
    } else {
        seq![name + ":"@] + lines
    }
}

/// The message for a terminating transform that is not last.
pub open spec fn not_last_error(name: Seq<char>) -> Seq<char> {
    "Terminating transform \""@ + name
        + "\" is not last in chain. Terminating transform must be last in chain."@
}

/// The validation errors of one transform, from its sub-chains.
pub open spec fn transform_errors(t: Transforms) -> Seq<Seq<char>>
    decreases t, 0int,
{
    match t {
        Transforms::Tee(tee) => headed(
            "Tee"@,
            indent(side_chain_errors(tee.tx.chain)) + match tee.mismatch_chain {
                Some(m) => indent(chain_errors(m.chain)),
                None => Seq::empty(),
            },
        ),
        Transforms::Sampler(s) => headed("Sampler"@, indent(chain_errors(s.sample_chain))),
        _ => Seq::empty(),
    }
}

/// The validation errors of the transforms of `ts` at positions `0..n`, in
/// order, where `ts` is a chain of `len` transforms.
pub open spec fn body_errors(ts: Seq<Transforms>, n: int) -> Seq<Seq<char>>
    decreases ts, n,
{
    if n <= 0 || n > ts.len() {
        Seq::empty()
    } else {
        let t = ts[n - 1];
        body_errors(ts, n - 1) + (if n < ts.len() && t.terminating() {
            seq![not_last_error(t.name_spec())]
        } else {
            Seq::empty()
        }) + transform_errors(t)
    }
}

/// What is wrong with the end of a chain that must answer requests itself:
/// it is empty, or its last transform is not terminating.
pub open spec fn tail_errors(ts: Seq<Transforms>) -> Seq<Seq<char>> {
    if ts.len() == 0 {
        seq!["Chain cannot be empty"@]
    } else if !ts.last().terminating() {
        seq![not_terminating_error(ts.last().name_spec())]
    } else {
        Seq::empty()
    }
}

/// The message for a chain whose last transform is not terminating.
pub open spec fn not_terminating_error(name: Seq<char>) -> Seq<char> {
    "Non-terminating transform \""@ + name + "\" is last in chain. Last transform must be terminating."@
}

/// The validation errors of a side chain, which must also end in a
/// terminating transform, under its name.
pub open spec fn side_chain_errors(c: TransformChain) -> Seq<Seq<char>>
    decreases c, 1int,
{
    headed(c.name@, indent(body_errors(c.chain@, c.chain@.len() as int) + tail_errors(c.chain@)))
}

/// The validation errors of a chain, under its name.
pub open spec fn chain_errors(c: TransformChain) -> Seq<Seq<char>>
    decreases c, 0int,
{
    headed(c.name@, indent(body_errors(c.chain@, c.chain@.len() as int)))
}

/// The views of a list of lines.
pub open spec fn lines_view(v: Seq<String>) -> Seq<Seq<char>> {
    Seq::new(v.len(), |i: int| v[i]@)
}

/// Each line indented by two spaces.
pub fn indent_lines(lines: Vec<String>) -> (r: Vec<String>)
    ensures
        lines_view(r@) == indent(lines_view(lines@)),
{
    let mut out: Vec<String> = Vec::new();
    let mut i: usize = 0;
    while i < lines.len()
        invariant
            i <= lines.len(),
            out.len() == i,
            forall|j: int| 0 <= j < i ==> out[j]@ == "  "@ + lines[j]@,
        decreases lines.len() - i,
    {
        let line = String::from_str("  ").concat(lines[i].as_str());
        out.push(line);
        i += 1;
    }
    assert(lines_view(out@) =~= indent(lines_view(lines@)));
    out
}

/// `lines` under a heading `name:`, or nothing where there are no lines.
pub fn head_lines(name: &str, lines: Vec<String>) -> (r: Vec<String>)
    ensures
        lines_view(r@) == headed(name@, lines_view(lines@)),
{
    if lines.len() == 0 {
        return lines;
    }
    let mut out: Vec<String> = Vec::new();
    out.push(String::from_str(name).concat(":"));
    let mut rest = lines;
    out.append(&mut rest);
    assert(lines_view(out@) =~= headed(name@, lines_view(lines@)));
    out
}

pub fn concat_lines(a: Vec<String>, b: Vec<String>) -> (r: Vec<String>)
    ensures
        lines_view(r@) == lines_view(a@) + lines_view(b@),
{
    let mut out = a;
    let mut rest = b;
    out.append(&mut rest);
    assert(lines_view(out@) =~= lines_view(a@) + lines_view(b@));
    out
}

impl Transforms {
    /// The validation errors of the transform's sub-chains.
    pub fn validate(&self) -> (r: Vec<String>)
        ensures
            lines_view(r@) == transform_errors(*self),
        decreases self, 0int,
    {
        match self {
            Transforms::Tee(tee) => {
                let main = indent_lines(tee.tx.chain.validate_as_side());
                let side = match &tee.mismatch_chain {
                    Some(m) => indent_lines(m.chain.validate()),
                    None => {
                        let e: Vec<String> = Vec::new();
                        assert(lines_view(e@) =~= Seq::empty());
                        e
                    },
                };
                head_lines("Tee", concat_lines(main, side))
            },
            Transforms::Sampler(s) => head_lines("Sampler", indent_lines(s.sample_chain.validate())),
            _ => {
                let r: Vec<String> = Vec::new();
                assert(lines_view(r@) =~= Seq::empty());
                r
            },
        }
    }
}

impl TransformChain {
    /// Runs the chain from its head over a batch of requests.
    pub fn process_request(&self, reqs: Vec<Message>, ctx: &mut ChainContext) -> (r: Result<
        Vec<Message>,
        ChainError,
    >)
        ensures
            result_view(r) == run(self.chain@, 0, batch_view(reqs@), old(ctx).now_secs as int),
            final(ctx).now_secs == old(ctx).now_secs,
            effect(self.chain@, 0, batch_view(reqs@), old(ctx).now_secs as int, *old(ctx), *final(ctx)),
    {
        process(&self.chain, 0, reqs, ctx)
    }

    /// The validation errors of the chain: each terminating transform that is
    /// not last, and the errors of each transform's sub-chains, in order, each
    /// indented by two spaces under the chain's name.
    pub fn validate(&self) -> (r: Vec<String>)
        ensures
            lines_view(r@) == chain_errors(*self),
        decreases self, 0int,
    {
        let mut body: Vec<String> = Vec::new();
        let n = self.chain.len();
        let mut i: usize = 0;
        assert forall|j: int| 0 <= j < n implies decreases_to!(*self => self.chain[j]) by {
            assert(decreases_to!(self.chain => self.chain[j]));
        }
        assert(lines_view(body@) =~= body_errors(self.chain@, 0));
        while i < n
            invariant
                i <= n,
                n == self.chain@.len(),
                lines_view(body@) == body_errors(self.chain@, i as int),
                forall|j: int| 0 <= j < n ==> decreases_to!(*self => self.chain[j]),
            decreases n - i,
        {
            let t = &self.chain[i];
            let mut own: Vec<String> = Vec::new();
            if i + 1 < n && t.is_terminating() {
                let line = String::from_str("Terminating transform \"").concat(t.get_name()).concat(
                    "\" is not last in chain. Terminating transform must be last in chain.",
                );
                own.push(line);
            }
            assert(lines_view(own@) =~= (if i + 1 < n && t.terminating() {
                seq![not_last_error(t.name_spec())]
            } else {
                Seq::<Seq<char>>::empty()
            }));
            let sub = t.validate();
            body = concat_lines(concat_lines(body, own), sub);
            i += 1;
        }
        head_lines(self.name.as_str(), indent_lines(body))
    }

    /// The validation errors of the chain used as a side chain: those of
    /// `validate`, and also an empty chain or a last transform that is not
    /// terminating.
    pub fn validate_as_side(&self) -> (r: Vec<String>)
        ensures
            lines_view(r@) == side_chain_errors(*self),
        decreases self, 1int,
    {
        let own = self.validate();
        let mut tail: Vec<String> = Vec::new();
        let n = self.chain.len();
        if n == 0 {
            tail.push(String::from_str("Chain cannot be empty"));
        } else if !self.chain[n - 1].is_terminating() {
            tail.push(
                String::from_str("Non-terminating transform \"").concat(
                    self.chain[n - 1].get_name(),
                ).concat("\" is last in chain. Last transform must be terminating."),
            );
        }
        let ghost b = body_errors(self.chain@, self.chain@.len() as int);
        assert(lines_view(tail@) =~= tail_errors(self.chain@));
        assert(indent(b + tail_errors(self.chain@)) =~= indent(b) + indent(tail_errors(self.chain@)));
        if tail.len() == 0 {
            assert(b + tail_errors(self.chain@) =~= b);
            return own;
        }
        let ind = indent_lines(tail);
        if own.len() == 0 {
            assert(lines_view(own@).len() == 0);
            assert(indent(b).len() == 0);
            assert(indent(b) + indent(tail_errors(self.chain@)) =~= indent(tail_errors(self.chain@)));
            head_lines(self.name.as_str(), ind)
        } else {
            let r = concat_lines(own, ind);
            assert(lines_view(r@) =~= side_chain_errors(*self));
            r
        }
    }
}

} // verus!
