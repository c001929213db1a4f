use vstd::prelude::*;
use vstd::string::*;
use crate::chain::{ChainContext, ChainError, dropped, saturating_add};
use crate::buffered::BufferedChain;
use crate::message::{Message, MessageV, batch_view, payloads, error_response_v};

verus! {

/// How a tee reconciles the main response with the side chain's.
#[derive(Clone, Copy, Debug, PartialEq, Eq, Structural)]
pub enum TeeMode {
    Ignore,
    FailOnMismatch,
    SubchainOnMismatch,
}

/// Duplicates each request batch down a side chain and reconciles the
/// responses according to its mode. The chain executor drives the side and
/// mismatch chains in line; in `Ignore` mode a batch reaches the side chain
/// only while the side queue holds fewer than `buffer_size` batches, and is
/// counted as dropped otherwise.
pub struct Tee {
    pub tx: BufferedChain,
    pub mismatch_chain: Option<BufferedChain>,
    pub buffer_size: usize,
    pub behavior: TeeMode,
    pub timeout_micros: Option<u64>,
}

/// The text of the error that replaces each response on a mismatch.
pub open spec fn mismatch_text() -> Seq<u8> {
    "ERR The responses from the Tee subchain and down-chain did not match and behavior is set to fail on mismatch".spec_bytes()
}

/// Every response replaced by the mismatch error.
pub open spec fn mismatch_errors(n: nat) -> Seq<MessageV> {
    Seq::new(n, |j: int| error_response_v(mismatch_text()))
}

/// What a tee answers, from the side chain's answer and the rest of the main
/// chain's answer. In `SubchainOnMismatch` mode a mismatch only sends the
/// requests to the mismatch chain, whose answer is not waited on.
pub open spec fn tee_outcome(
    mode: TeeMode,
    side: Result<Seq<MessageV>, ChainError>,
    main: Result<Seq<MessageV>, ChainError>,
) -> Result<Seq<MessageV>, ChainError> {
    match mode {
        TeeMode::Ignore => main,
        TeeMode::FailOnMismatch => match (side, main) {
            (Err(e), _) => Err(e),
            (Ok(_), Err(e)) => Err(e),
            (Ok(s), Ok(m)) => if payloads(m) != payloads(s) {
                Ok(mismatch_errors(m.len()))
            } else {
                Ok(m)
            },
        },
        TeeMode::SubchainOnMismatch => match (side, main) {
            (Err(e), _) => Err(e),
            (Ok(_), Err(e)) => Err(e),
            (Ok(_), Ok(m)) => Ok(m),
        },
    }
}

/// Every response of `main` replaced by the mismatch error.
pub fn replace_with_mismatch_errors(main: Vec<Message>) -> (r: Vec<Message>)
    ensures
        batch_view(r@) == mismatch_errors(main@.len()),
{
    let text = vstd::slice::slice_to_vec(
        "ERR The responses from the Tee subchain and down-chain did not match and behavior is set to fail on mismatch".as_bytes(),
    );
    let mut out: Vec<Message> = Vec::new();
    let mut i: usize = 0;
    while i < main.len()
        invariant
            i <= main.len(),
            out.len() == i,
            text@ == mismatch_text(),
            forall|j: int| 0 <= j < i ==> out[j]@ == error_response_v(mismatch_text()),
        decreases main.len() - i,
    {
        out.push(main[i].to_error_response(&text));
        i += 1;
    }
    assert(batch_view(out@) =~= mismatch_errors(main@.len()));
    out
}

/// In `Ignore` mode a failed side delivery counts each message of the batch
/// as dropped.
pub fn record_side_outcome(side_failed: bool, n: usize, ctx: &mut ChainContext)
    ensures
        *final(ctx) == (if side_failed {
            dropped(*old(ctx), n as nat)
        } else {
            *old(ctx)
        }),
{
    if side_failed {
        ctx.tee_dropped_messages = saturating_add(ctx.tee_dropped_messages, n);
    }
}

} // verus!
