use vstd::prelude::*;
use crate::frame::{Frame, FrameV};

verus! {

/// The mathematical value of a message in flight.
pub struct MessageV {
    pub frame: FrameV,
    pub modified: bool,
    pub meta: Option<FrameV>,
    pub raw: Option<Seq<u8>>,
}

/// A unit of protocol traffic: the parsed frame, whether a transform changed it
/// (so that the codec must re-encode it), metadata attached along the chain,
/// and the bytes it arrived as. While `modified` is false those bytes are its
/// wire form; once it is set the frame is.
#[derive(Debug)]
pub struct Message {
    pub frame: Frame,
    pub modified: bool,
    pub meta: Option<Frame>,
    pub raw: Option<Vec<u8>>,
}

impl View for Message {
    type V = MessageV;

    open spec fn view(&self) -> MessageV {
        MessageV {
            frame: self.frame@,
            modified: self.modified,
            meta: match self.meta {
                Some(m) => Some(m@),
                None => None,
            },
            raw: match self.raw {
                Some(b) => Some(b@),
                None => None,
            },
        }
    }
}

/// The views of a batch of messages.
pub open spec fn batch_view(s: Seq<Message>) -> Seq<MessageV> {
    Seq::new(s.len(), |i: int| s[i]@)
}

/// The payloads of a batch: what is compared when two batches are matched.
pub open spec fn payloads(s: Seq<MessageV>) -> Seq<FrameV> {
    Seq::new(s.len(), |i: int| s[i].frame)
}

/// The error response that replaces a message.
pub open spec fn error_response_v(text: Seq<u8>) -> MessageV {
    MessageV { frame: FrameV::Error(text), modified: true, meta: None, raw: None }
}

impl Message {
    /// A fresh, unmodified message holding `frame`.
    pub fn from_frame(frame: Frame) -> (r: Message)
        ensures
            r@ == (MessageV { frame: frame@, modified: false, meta: None, raw: None }),
    {
        Message { frame, modified: false, meta: None, raw: None }
    }

    /// An unmodified message decoded from `raw`.
    pub fn from_wire(frame: Frame, raw: Vec<u8>) -> (r: Message)
        ensures
            r@ == (MessageV { frame: frame@, modified: false, meta: None, raw: Some(raw@) }),
    {
        Message { frame, modified: false, meta: None, raw: Some(raw) }
    }

    /// A copy of the message with the same value.
    pub fn deep_copy(&self) -> (r: Message)
        ensures
            r@ == self@,
    {
        let meta = match &self.meta {
            Some(m) => Some(m.deep_copy()),
            None => None,
        };
        let raw = match &self.raw {
            Some(b) => Some(b.clone()),
            None => None,
        };
        Message { frame: self.frame.deep_copy(), modified: self.modified, meta, raw }
    }

    /// An error response carrying `text`, to be re-encoded by the codec.
    pub fn to_error_response(&self, text: &Vec<u8>) -> (r: Message)
        ensures
            r@ == error_response_v(text@),
    {
        Message { frame: Frame::Error(text.clone()), modified: true, meta: None, raw: None }
    }
}

/// A copy of a batch with the same values.
pub fn copy_batch(v: &Vec<Message>) -> (r: Vec<Message>)
    ensures
        batch_view(r@) == batch_view(v@),
{
    let mut out: Vec<Message> = Vec::new();
    let mut i: usize = 0;
    while i < v.len()
        invariant
            i <= v.len(),
            out.len() == i,
            forall|j: int| 0 <= j < i ==> out[j]@ == v[j]@,
        decreases v.len() - i,
    {
        out.push(v[i].deep_copy());
        i += 1;
    }
    assert(batch_view(out@) =~= batch_view(v@));
    out
}

/// Whether two batches carry the same payloads, message by message.
pub fn same_payloads(a: &Vec<Message>, b: &Vec<Message>) -> (r: bool)
    ensures
        r == (payloads(batch_view(a@)) == payloads(batch_view(b@))),
{
    if a.len() != b.len() {
        assert(payloads(batch_view(a@)).len() != payloads(batch_view(b@)).len());
        return false;
    }
    let mut i: usize = 0;
    while i < a.len()
        invariant
            i <= a.len(),
            a.len() == b.len(),
            forall|j: int| 0 <= j < i ==> a[j].frame@ == b[j].frame@,
        decreases a.len() - i,
    {
        if !a[i].frame.same_as(&b[i].frame) {
            assert(payloads(batch_view(a@))[i as int] != payloads(batch_view(b@))[i as int]);
            return false;
        }
        i += 1;
    }
    assert(payloads(batch_view(a@)) =~= payloads(batch_view(b@)));
    true
}

} // verus!
