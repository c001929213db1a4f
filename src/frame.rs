use vstd::prelude::*;

verus! {

broadcast use vstd::std_specs::vec::axiom_vec_index_decreases;

/// The mathematical value of a RESP2 frame.
pub enum FrameV {
    SimpleString(Seq<u8>),
    Error(Seq<u8>),
    Integer(int),
    BulkString(Seq<u8>),
    Array(Seq<FrameV>),
    Null,
}

/// A parsed RESP2 frame, as carried in a message.
#[derive(Debug)]
pub enum Frame {
    SimpleString(Vec<u8>),
    Error(Vec<u8>),
    Integer(i64),
    BulkString(Vec<u8>),
    Array(Vec<Frame>),
    Null,
}

impl View for Frame {
    type V = FrameV;

    open spec fn view(&self) -> FrameV
        decreases self,
    {
        match self {
            Frame::SimpleString(b) => FrameV::SimpleString(b@),
            Frame::Error(b) => FrameV::Error(b@),
            Frame::Integer(n) => FrameV::Integer(*n as int),
            Frame::BulkString(b) => FrameV::BulkString(b@),
            Frame::Array(v) => FrameV::Array(
                Seq::new(
                    v.len() as nat,
                    |i: int|
                        if 0 <= i < v.len() {
                            v[i].view()
                        } else {
                            FrameV::Null
                        },
                ),
            ),
            Frame::Null => FrameV::Null,
        }
    }
}

/// The views of a vector of frames.
pub open spec fn frames_view(v: Seq<Frame>) -> Seq<FrameV> {
    Seq::new(v.len(), |i: int| v[i]@)
}

pub proof fn lemma_array_view(v: &Vec<Frame>)
    ensures
        Frame::Array(*v)@ == FrameV::Array(frames_view(v@)),
{
    if let FrameV::Array(a) = Frame::Array(*v)@ {
        assert(a =~= frames_view(v@));
    }
}

impl Frame {
    /// A copy of the frame with the same value.
    pub fn deep_copy(&self) -> (r: Frame)
        ensures
            r@ == self@,
        decreases self,
    {
        match self {
            Frame::SimpleString(b) => Frame::SimpleString(b.clone()),
            Frame::Error(b) => Frame::Error(b.clone()),
            Frame::Integer(n) => Frame::Integer(*n),
            Frame::BulkString(b) => Frame::BulkString(b.clone()),
            Frame::Null => Frame::Null,
            Frame::Array(v) => {
                let mut out: Vec<Frame> = Vec::new();
                let mut i: usize = 0;
                assert forall|j: int| 0 <= j < v.len() implies decreases_to!(*self => v[j]) by {
                    assert(decreases_to!(*v => v[j]));
                }
                while i < v.len()
                    invariant
                        i <= v.len(),
                        out.len() == i,
                        forall|j: int| 0 <= j < i ==> out[j]@ == v[j]@,
                        forall|j: int| 0 <= j < v.len() ==> decreases_to!(*self => v[j]),
                    decreases v.len() - i,
                {
                    let c = v[i].deep_copy();
                    out.push(c);
                    i += 1;
                }
                proof {
                    lemma_array_view(&out);
                    lemma_array_view(v);
                    assert(frames_view(out@) =~= frames_view(v@));
                }
                Frame::Array(out)
            }
        }
    }

    /// Whether two frames have the same value.
    pub fn same_as(&self, other: &Frame) -> (r: bool)
        ensures
            r == (self@ == other@),
        decreases self,
    {
        match (self, other) {
            (Frame::SimpleString(a), Frame::SimpleString(b)) => bytes_eq(a, b),
            (Frame::Error(a), Frame::Error(b)) => bytes_eq(a, b),
            (Frame::Integer(a), Frame::Integer(b)) => *a == *b,
            (Frame::BulkString(a), Frame::BulkString(b)) => bytes_eq(a, b),
            (Frame::Null, Frame::Null) => true,
            (Frame::Array(a), Frame::Array(b)) => {
                proof {
                    lemma_array_view(a);
                    lemma_array_view(b);
                }
                if a.len() != b.len() {
                    assert(frames_view(a@).len() != frames_view(b@).len());
                    return false;
                }
                assert forall|j: int| 0 <= j < a.len() implies decreases_to!(*self => a[j]) by {
                    assert(decreases_to!(*a => a[j]));
                }
                let mut i: usize = 0;
                while i < a.len()
                    invariant
                        i <= a.len(),
                        a.len() == b.len(),
                        self@ == FrameV::Array(frames_view(a@)),
                        other@ == FrameV::Array(frames_view(b@)),
                        forall|j: int| 0 <= j < i ==> a[j]@ == b[j]@,
                        forall|j: int| 0 <= j < a.len() ==> decreases_to!(*self => a[j]),
                    decreases a.len() - i,
                {
                    if !a[i].same_as(&b[i]) {
                        assert(frames_view(a@)[i as int] != frames_view(b@)[i as int]);
                        return false;
                    }
                    i += 1;
                }
                assert(frames_view(a@) =~= frames_view(b@));
                true
            }
            _ => false,
        }
    }
}

/// Whether two byte strings are equal.
pub fn bytes_eq(a: &Vec<u8>, b: &Vec<u8>) -> (r: bool)
    ensures
        r == (a@ == b@),
{
    if a.len() != b.len() {
        return false;
    }
    let mut i: usize = 0;
    while i < a.len()
        invariant
            i <= a.len(),
            a.len() == b.len(),
            forall|j: int| 0 <= j < i ==> a[j] == b[j],
        decreases a.len() - i,
    {
        if a[i] != b[i] {
            return false;
        }
        i += 1;
    }
    assert(a@ =~= b@);
    true
}

} // verus!
