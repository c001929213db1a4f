use vstd::prelude::*;
use crate::buffered::enqueue_all;
use crate::sampler::Sampler;
use crate::tee::Tee;
use crate::chain::{
    ChainContext, ChainError, Transforms, chain_errors, side_chain_errors, counted, dropped, effect, passes_via, indent, replies, run, transform_errors,
};
use crate::frame::FrameV;
use crate::message::{MessageV, error_response_v, payloads};
use crate::ports_rewrite::{is_cluster_slots_spec, rewrite_slot_map, slot_map_ok};
use crate::tee::{TeeMode, mismatch_errors, mismatch_text, tee_outcome};

verus! {

/// A chain made of a null sink alone answers every batch with one null
/// response per request; one made of an echo sink alone answers with the
/// requests themselves.
pub proof fn lemma_single_sink(reqs: Seq<MessageV>, now: int)
    ensures
        run(seq![Transforms::NullSink], 0, reqs, now) == Ok::<Seq<MessageV>, ChainError>(
            replies(reqs.len(), FrameV::Null),
        ),
        replies(reqs.len(), FrameV::Null).len() == reqs.len(),
        run(seq![Transforms::EchoSink], 0, reqs, now) == Ok::<Seq<MessageV>, ChainError>(reqs),
{
}

/// A transform that hands the batch on and the answer back untouched: a
/// sampler, a tee in `Ignore` mode, or a port rewrite where no request is a
/// `CLUSTER SLOTS` request.
pub open spec fn passes_through(t: Transforms, reqs: Seq<MessageV>) -> bool {
    match t {
        Transforms::Sampler(_) => true,
        Transforms::Tee(tee) => tee.behavior == TeeMode::Ignore,
        Transforms::PortsRewrite(_) => forall|k: int|
            0 <= k < reqs.len() ==> !#[trigger] is_cluster_slots_spec(reqs[k].frame),
        _ => false,
    }
}

/// A chain of pass-through transforms that ends in an echo sink answers each
/// request with itself, in order, whatever the side chains do.
pub proof fn lemma_order_kept(ts: Seq<Transforms>, i: int, reqs: Seq<MessageV>, now: int)
    requires
        0 <= i < ts.len(),
        ts.last() is EchoSink,
        forall|j: int| 0 <= j < ts.len() - 1 ==> passes_through(#[trigger] ts[j], reqs),
    ensures
        run(ts, i, reqs, now) == Ok::<Seq<MessageV>, ChainError>(reqs),
    decreases ts.len() - i,
{
    if i < ts.len() - 1 {
        lemma_order_kept(ts, i + 1, reqs, now);
        assert(passes_through(ts[i], reqs));
        if let Transforms::PortsRewrite(p) = ts[i] {
            let r = crate::chain::rewrite_responses(reqs, reqs, p.new_port as int);
            if let Ok(s) = r {
                assert(s =~= reqs);
            }
        }
    }
}

/// A tee in `Ignore` mode answers what the rest of the chain answers, whatever
/// its side chain answers, an error included.
pub proof fn lemma_tee_ignore_transparent(ts: Seq<Transforms>, i: int, reqs: Seq<MessageV>, now: int)
    requires
        0 <= i < ts.len(),
        ts[i] matches Transforms::Tee(tee) && tee.behavior == TeeMode::Ignore,
    ensures
        run(ts, i, reqs, now) == run(ts, i + 1, reqs, now),
{
}

/// In `FailOnMismatch` mode, where the main answer and the side answer differ,
/// every response is the mismatch error; where they are equal, the main
/// answer passes unchanged.
pub proof fn lemma_tee_fail_on_mismatch(side: Seq<MessageV>, main: Seq<MessageV>)
    ensures
        payloads(main) != payloads(side) ==> tee_outcome(
            TeeMode::FailOnMismatch,
            Ok(side),
            Ok(main),
        ) == Ok::<Seq<MessageV>, ChainError>(mismatch_errors(main.len())),
        mismatch_errors(main.len()).len() == main.len(),
        forall|k: int|
            0 <= k < main.len() ==> #[trigger] mismatch_errors(main.len())[k] == error_response_v(
                mismatch_text(),
            ) && mismatch_errors(main.len())[k].frame == FrameV::Error(mismatch_text()),
        side == main ==> tee_outcome(TeeMode::FailOnMismatch, Ok(side), Ok(main)) == Ok::<
            Seq<MessageV>,
            ChainError,
        >(main),
{
}

/// A tee whose side chain is valid and ends in a sink, and whose mismatch
/// chain has `k > 0` validation errors, reports exactly those `k` errors, each indented by two
/// spaces, under the heading `Tee:`.
pub proof fn lemma_validation_composes(t: Transforms)
    requires
        t is Tee,
        side_chain_errors(t->Tee_0.tx.chain).len() == 0,
        t->Tee_0.mismatch_chain is Some,
        chain_errors(t->Tee_0.mismatch_chain->Some_0.chain).len() > 0,
    ensures
        transform_errors(t).len() == chain_errors(t->Tee_0.mismatch_chain->Some_0.chain).len() + 1,
        transform_errors(t)[0] == "Tee:"@,
        forall|j: int|
            0 <= j < chain_errors(t->Tee_0.mismatch_chain->Some_0.chain).len() ==> #[trigger] transform_errors(t)[j + 1]
                == "  "@ + chain_errors(t->Tee_0.mismatch_chain->Some_0.chain)[j],
{
    reveal_strlit("Tee");
    reveal_strlit(":");
    reveal_strlit("Tee:");
    assert("Tee"@ + ":"@ =~= "Tee:"@);
    if let Transforms::Tee(tee) = t {
        if let Some(m) = tee.mismatch_chain {
            assert(indent(side_chain_errors(tee.tx.chain)) =~= Seq::<Seq<char>>::empty());
            assert(indent(side_chain_errors(tee.tx.chain)) + indent(chain_errors(m.chain)) =~= indent(
                chain_errors(m.chain),
            ));
        }
    }
}

/// `m` is the node entry `n` with its port set to `port` and all else kept.
pub open spec fn node_rewritten(n: FrameV, m: FrameV, port: int) -> bool {
    match (n, m) {
        (FrameV::Array(x), FrameV::Array(y)) => {
            &&& y.len() == x.len()
            &&& y[1] == FrameV::Integer(port)
            &&& forall|k: int| 0 <= k < x.len() && k != 1 ==> #[trigger] y[k] == x[k]
        },
        _ => false,
    }
}

/// `r` is the slot-map element `e` with every node port set to `port` and all
/// else kept.
pub open spec fn entry_rewritten(e: FrameV, r: FrameV, port: int) -> bool {
    match e {
        FrameV::Array(s) => match r {
            FrameV::Array(t) => {
                &&& t.len() == s.len()
                &&& forall|j: int| 0 <= j < 2 && j < s.len() ==> #[trigger] t[j] == s[j]
                &&& forall|j: int| 2 <= j < s.len() ==> node_rewritten(#[trigger] s[j], t[j], port)
            },
            _ => false,
        },
        _ => r == e,
    }
}

/// Rewriting a valid slot map to `port` sets every node port to `port` and
/// keeps everything else: the same slot entries, the same slot ranges, the
/// same hosts and the same trailing fields.
pub proof fn lemma_rewrite_only_ports(a: Seq<FrameV>, port: int)
    requires
        slot_map_ok(FrameV::Array(a)),
    ensures
        rewrite_slot_map(FrameV::Array(a), port) is Array,
        rewrite_slot_map(FrameV::Array(a), port)->Array_0.len() == a.len(),
        forall|i: int|
            0 <= i < a.len() ==> entry_rewritten(
                #[trigger] a[i],
                rewrite_slot_map(FrameV::Array(a), port)->Array_0[i],
                port,
            ),
{
    assert forall|i: int| 0 <= i < a.len() implies entry_rewritten(
        #[trigger] a[i],
        rewrite_slot_map(FrameV::Array(a), port)->Array_0[i],
        port,
    ) by {
        if let FrameV::Array(s) = a[i] {
            assert forall|j: int| 2 <= j < s.len() implies node_rewritten(
                #[trigger] s[j],
                crate::ports_rewrite::rewrite_slot(s, port)[j],
                port,
            ) by {
                assert(crate::ports_rewrite::node_ok(s[j]));
            }
        }
    }
}

/// Fire-and-forget submissions to a buffered chain of size `size` whose
/// worker takes nothing: from an empty queue the first `size` batches are
/// queued, in order, and each one after them is refused and leaves the queue
/// as it was.
pub proof fn lemma_backpressure(size: nat, bs: Seq<Seq<MessageV>>)
    ensures
        bs.len() <= size ==> enqueue_all(Seq::empty(), size, bs) == bs,
        bs.len() > size ==> enqueue_all(Seq::empty(), size, bs) == bs.subrange(0, size as int),
    decreases bs.len(),
{
    if bs.len() > 0 {
        lemma_backpressure(size, bs.drop_last());
        if bs.len() <= size {
            assert(bs.drop_last().push(bs.last()) =~= bs);
        } else if bs.len() == size + 1 {
            assert(bs.drop_last() =~= bs.subrange(0, size as int));
        } else {
            assert(bs.drop_last().subrange(0, size as int) =~= bs.subrange(0, size as int));
        }
    }
}

/// A sink that counts nothing.
pub open spec fn quiet_sink(t: Transforms) -> bool {
    t is NullSink || t is EchoSink || t is ReplySink || t is ErrorSink || t is Returner
}

/// A tee in `Ignore` mode whose side chain is one sink, in front of a sink
/// that counts nothing: the batch is counted as dropped exactly when the side
/// queue has no room or the side sink fails, and nothing else changes.
pub proof fn lemma_ignore_drop_count(
    tee: Tee,
    last: Transforms,
    reqs: Seq<MessageV>,
    now: int,
    a: ChainContext,
    b: ChainContext,
)
    requires
        tee.behavior == TeeMode::Ignore,
        tee.tx.chain.chain@.len() == 1,
        quiet_sink(tee.tx.chain.chain@[0]),
        quiet_sink(last),
        effect(seq![Transforms::Tee(tee), last], 0, reqs, now, a, b),
    ensures
        b == (if tee.tx.chain.chain@[0] is ErrorSink || tee.tx.pending().len() >= tee.tx.buffer_size {
            dropped(a, reqs.len())
        } else {
            a
        }),
{
    let ts = seq![Transforms::Tee(tee), last];
    assert(ts[0] == Transforms::Tee(tee) && ts[1] == last && ts.len() == 2);
    let side = tee.tx.chain.chain@;
    assert(side[0] == tee.tx.chain.chain@[0]);
    if tee.tx.pending().len() >= tee.tx.buffer_size {
        assert(effect(ts, 1, reqs, now, dropped(a, reqs.len()), b));
    } else {
        let m = choose|m: ChainContext|
            #[trigger] passes_via(m) && effect(side, 0, reqs, now, a, m) && effect(
                ts,
                1,
                reqs,
                now,
                if run(side, 0, reqs, now) is Err {
                    dropped(m, reqs.len())
                } else {
                    m
                },
                b,
            );
        assert(effect(side, 0, reqs, now, a, m));
        assert(m == a);
    }
}

/// A sampler that always samples, with a counting sink as its sample chain,
/// in front of a sink that counts nothing: every request is counted once.
pub proof fn lemma_always_sampled(
    s: Sampler,
    last: Transforms,
    reqs: Seq<MessageV>,
    now: int,
    a: ChainContext,
    b: ChainContext,
)
    requires
        s.numerator >= s.denominator,
        s.numerator > 0,
        s.sample_chain.chain@ == seq![Transforms::CountingSink],
        quiet_sink(last),
        effect(seq![Transforms::Sampler(s), last], 0, reqs, now, a, b),
    ensures
        b == counted(a, reqs.len()),
{
    let ts = seq![Transforms::Sampler(s), last];
    assert(ts[0] == Transforms::Sampler(s) && ts[1] == last && ts.len() == 2);
    let m = choose|m: ChainContext|
        #[trigger] passes_via(m) && ((s.may_decide(true) && effect(
            s.sample_chain.chain@,
            0,
            reqs,
            now,
            a,
            m,
        )) || (s.may_decide(false) && m == a)) && effect(ts, 1, reqs, now, m, b);
    if s.may_decide(false) {
        if s.denominator > 0 {
            let c = choose|c: u32| #[trigger] crate::sampler::below(c, s.denominator) && false == (c < s.numerator);
            assert(false);
        }
    }
    assert(effect(s.sample_chain.chain@, 0, reqs, now, a, m));
}

/// A tee in `SubchainOnMismatch` mode whose side chain answers differently
/// from the rest of the chain sends the requests to its mismatch chain: with a
/// counting sink there, every request is counted once.
pub proof fn lemma_mismatch_chain_receives(
    tee: Tee,
    last: Transforms,
    reqs: Seq<MessageV>,
    now: int,
    a: ChainContext,
    b: ChainContext,
)
    requires
        tee.behavior == TeeMode::SubchainOnMismatch,
        tee.tx.chain.chain@.len() == 1,
        quiet_sink(tee.tx.chain.chain@[0]),
        quiet_sink(last),
        tee.mismatch_chain matches Some(mc) && mc.chain.chain@ == seq![Transforms::CountingSink],
        run(tee.tx.chain.chain@, 0, reqs, now) matches Ok(sv) && run(seq![last], 0, reqs, now) matches Ok(
            mv,
        ) && payloads(mv) != payloads(sv),
        effect(seq![Transforms::Tee(tee), last], 0, reqs, now, a, b),
    ensures
        b == counted(a, reqs.len()),
{
    let ts = seq![Transforms::Tee(tee), last];
    assert(ts[0] == Transforms::Tee(tee) && ts[1] == last && ts.len() == 2);
    let side = tee.tx.chain.chain@;
    assert(side[0] == tee.tx.chain.chain@[0]);
    let m = choose|m: ChainContext|
        #[trigger] passes_via(m) && effect(side, 0, reqs, now, a, m) && exists|k: ChainContext|
            #[trigger] passes_via(k) && effect(ts, 1, reqs, now, m, k) && if crate::chain::sends_to_mismatch(
                tee,
                run(side, 0, reqs, now),
                run(ts, 1, reqs, now),
            ) {
                effect(tee.mismatch_chain->Some_0.chain.chain@, 0, reqs, now, k, b)
            } else {
                b == k
            };
    let k = choose|k: ChainContext|
        #[trigger] passes_via(k) && effect(ts, 1, reqs, now, m, k) && if crate::chain::sends_to_mismatch(
            tee,
            run(side, 0, reqs, now),
            run(ts, 1, reqs, now),
        ) {
            effect(tee.mismatch_chain->Some_0.chain.chain@, 0, reqs, now, k, b)
        } else {
            b == k
        };
    assert(effect(side, 0, reqs, now, a, m));
    assert(m == a);
    assert(effect(ts, 1, reqs, now, m, k));
    assert(k == m);
    assert(run(ts, 1, reqs, now) == run(seq![last], 0, reqs, now));
    assert(effect(tee.mismatch_chain->Some_0.chain.chain@, 0, reqs, now, k, b));
}

} // verus!
