use vstd::prelude::*;
use crate::chain::{ChainContext, ChainError, TransformChain, process, result_view, run};
use crate::message::{Message, MessageV, batch_view};

verus! {

/// A chain fronted by a bounded FIFO of pending request batches. Batches
/// submitted without a reply wait in the queue until the worker step takes
/// them, strictly in the order they were submitted.
pub struct BufferedChain {
    pub chain: TransformChain,
    pub buffer_size: usize,
    pub queue: Vec<Vec<Message>>,
}

/// The views of the pending batches.
pub open spec fn queue_view(q: Seq<Vec<Message>>) -> Seq<Seq<MessageV>> {
    Seq::new(q.len(), |i: int| batch_view(q[i]@))
}

/// The queue after a fire-and-forget submission: the batch joins the back
/// where there is room, else the queue stays as it is.
pub open spec fn enqueue(q: Seq<Seq<MessageV>>, size: nat, b: Seq<MessageV>) -> Seq<Seq<MessageV>> {
    if q.len() < size {
        q.push(b)
    } else {
        q
    }
}

/// The queue after submitting each of `bs` in turn.
pub open spec fn enqueue_all(q: Seq<Seq<MessageV>>, size: nat, bs: Seq<Seq<MessageV>>) -> Seq<Seq<MessageV>>
    decreases bs.len(),
{
    if bs.len() == 0 {
        q
    } else {
        enqueue(enqueue_all(q, size, bs.drop_last()), size, bs.last())
    }
}

impl BufferedChain {
    pub open spec fn pending(&self) -> Seq<Seq<MessageV>> {
        queue_view(self.queue@)
    }

    /// An empty queue of `buffer_size` places in front of `chain`.
    pub fn new(chain: TransformChain, buffer_size: usize) -> (r: BufferedChain)
        ensures
            r.chain == chain,
            r.buffer_size == buffer_size,
            r.pending().len() == 0,
    {
        BufferedChain { chain, buffer_size, queue: Vec::new() }
    }

    /// The number of batches waiting.
    pub fn len(&self) -> (r: usize)
        ensures
            r == self.pending().len(),
    {
        self.queue.len()
    }

    /// Submits a batch with no reply expected. Where the queue is full the
    /// batch is refused with `Backpressure` and the queue is unchanged.
    pub fn process_request_no_return(&mut self, reqs: Vec<Message>) -> (r: Result<(), ChainError>)
        ensures
            r is Ok <==> old(self).pending().len() < old(self).buffer_size,
            r is Err ==> r == Err::<(), ChainError>(ChainError::Backpressure),
            final(self).pending() == enqueue(
                old(self).pending(),
                old(self).buffer_size as nat,
                batch_view(reqs@),
            ),
            final(self).chain == old(self).chain,
            final(self).buffer_size == old(self).buffer_size,
    {
        if self.queue.len() >= self.buffer_size {
            return Err(ChainError::Backpressure);
        }
        self.queue.push(reqs);
        assert(self.pending() =~= old(self).pending().push(batch_view(reqs@)));
        Ok(())
    }

    /// The worker's step: takes the oldest pending batch, if any, and runs
    /// the chain over it.
    pub fn process_next(&mut self, ctx: &mut ChainContext) -> (r: Option<Result<Vec<Message>, ChainError>>)
        ensures
            old(self).pending().len() == 0 <==> r is None,
            r matches Some(res) ==> result_view(res) == run(
                old(self).chain.chain@,
                0,
                old(self).pending()[0],
                old(ctx).now_secs as int,
            ),
            old(self).pending().len() > 0 ==> final(self).pending() == old(self).pending().drop_first(),
            old(self).pending().len() == 0 ==> final(self).pending() == old(self).pending(),
            final(self).chain == old(self).chain,
            final(self).buffer_size == old(self).buffer_size,
            final(ctx).now_secs == old(ctx).now_secs,
    {
        if self.queue.len() == 0 {
            return None;
        }
        let batch = self.queue.remove(0);
        assert(self.pending() =~= old(self).pending().drop_first());
        Some(process(&self.chain.chain, 0, batch, ctx))
    }

    /// Submits a batch and waits for its answer: the batches queued before it
    /// are run first, in order, and their answers dropped.
    pub fn process_request(&mut self, reqs: Vec<Message>, ctx: &mut ChainContext) -> (r: Result<
        Vec<Message>,
        ChainError,
    >)
        ensures
            result_view(r) == run(old(self).chain.chain@, 0, batch_view(reqs@), old(ctx).now_secs as int),
            final(self).pending().len() == 0,
            final(self).chain == old(self).chain,
            final(self).buffer_size == old(self).buffer_size,
            final(ctx).now_secs == old(ctx).now_secs,
    {
        while self.queue.len() > 0
            invariant
                self.chain == old(self).chain,
                self.buffer_size == old(self).buffer_size,
                ctx.now_secs == old(ctx).now_secs,
            decreases self.pending().len(),
        {
            let _ = self.process_next(ctx);
        }
        process(&self.chain.chain, 0, reqs, ctx)
    }
}

} // verus!
