use vstd::prelude::*;
use crate::frame::{Frame, FrameV, frames_view, lemma_array_view};

verus! {

/// Configuration of the port-rewriting transform.
pub struct RedisClusterPortsRewriteConfig {
    pub new_port: u16,
}

/// Rewrites the node ports in responses to `CLUSTER SLOTS` requests.
pub struct RedisClusterPortsRewrite {
    pub new_port: u16,
}

impl RedisClusterPortsRewrite {
    pub fn new(new_port: u16) -> (r: Self)
        ensures
            r.new_port == new_port,
    {
        RedisClusterPortsRewrite { new_port }
    }
}

impl RedisClusterPortsRewriteConfig {
    /// Builds the transform that this configuration describes.
    pub fn get_source(&self) -> (r: RedisClusterPortsRewrite)
        ensures
            r.new_port == self.new_port,
    {
        RedisClusterPortsRewrite::new(self.new_port)
    }
}

/// Why a slot map could not be rewritten.
#[derive(Debug, PartialEq, Eq)]
pub enum RewriteError {
    /// A node entry was an array that does not start with a host and a port.
    ExpectedHostPort,
    /// A node entry was not an array.
    UnexpectedValue,
}

/// ASCII upper-casing of one byte.
pub open spec fn upper(b: u8) -> u8 {
    if 97 <= b <= 122 {
        (b - 32) as u8
    } else {
        b
    }
}

/// Whether `f` is a bulk string equal to `word` when upper-cased.
pub open spec fn is_bulk_word(f: FrameV, word: Seq<u8>) -> bool {
    match f {
        FrameV::BulkString(b) => b.len() == word.len() && forall|i: int|
            0 <= i < b.len() ==> #[trigger] upper(b[i]) == word[i],
        _ => false,
    }
}

/// `CLUSTER` in upper case.
pub open spec fn cluster_word() -> Seq<u8> {
    seq![67u8, 76, 85, 83, 84, 69, 82]
}

/// `SLOTS` in upper case.
pub open spec fn slots_word() -> Seq<u8> {
    seq![83u8, 76, 79, 84, 83]
}

/// A `CLUSTER SLOTS` request: an array of exactly two bulk strings, `CLUSTER`
/// and `SLOTS`, compared without regard to case.
pub open spec fn is_cluster_slots_spec(f: FrameV) -> bool {
    match f {
        FrameV::Array(a) => a.len() == 2 && is_bulk_word(a[0], cluster_word()) && is_bulk_word(
            a[1],
            slots_word(),
        ),
        _ => false,
    }
}

fn ascii_upper(b: u8) -> (r: u8)
    ensures
        r == upper(b),
{
    if 97 <= b && b <= 122 {
        b - 32
    } else {
        b
    }
}

pub(crate) fn is_bulk_word_exec(f: &Frame, word: &[u8]) -> (r: bool)
    ensures
        r == is_bulk_word(f@, word@),
{
    match f {
        Frame::BulkString(b) => {
            if b.len() != word.len() {
                return false;
            }
            let mut i: usize = 0;
            while i < b.len()
                invariant
                    i <= b.len(),
                    b.len() == word@.len(),
                    f@ == FrameV::BulkString(b@),
                    forall|j: int| 0 <= j < i ==> #[trigger] upper(b[j]) == word@[j],
                decreases b.len() - i,
            {
                if ascii_upper(b[i]) != word[i] {
                    assert(upper(b@[i as int]) != word@[i as int]);
                    return false;
                }
                i += 1;
            }
            true
        }
        _ => false,
    }
}

/// Determines whether `frame` is a `CLUSTER SLOTS` request.
pub fn is_cluster_slots(frame: &Frame) -> (r: bool)
    ensures
        r == is_cluster_slots_spec(frame@),
{
    match frame {
        Frame::Array(a) => {
            proof {
                lemma_array_view(a);
            }
            if a.len() != 2 {
                return false;
            }
            let cluster: [u8; 7] = [67u8, 76, 85, 83, 84, 69, 82];
            let slots: [u8; 5] = [83u8, 76, 79, 84, 83];
            assert(cluster@ =~= cluster_word());
            assert(slots@ =~= slots_word());
            if !is_bulk_word_exec(&a[0], cluster.as_slice()) {
                return false;
            }
            is_bulk_word_exec(&a[1], slots.as_slice())
        }
        _ => false,
    }
}

/// A node entry `[ip, port, ...]` whose port can be rewritten.
pub open spec fn node_ok(n: FrameV) -> bool {
    match n {
        FrameV::Array(t) => t.len() >= 2 && t[0] is BulkString && t[1] is Integer,
        _ => false,
    }
}

/// Every node entry of a slot entry (from its third element on) can be rewritten.
pub open spec fn slot_ok(s: Seq<FrameV>) -> bool {
    forall|j: int| 2 <= j < s.len() ==> #[trigger] node_ok(s[j])
}

/// Every slot entry of a slot map can be rewritten; elements that are not
/// arrays, and frames that are not arrays, are left alone.
pub open spec fn slot_map_ok(f: FrameV) -> bool {
    match f {
        FrameV::Array(a) => forall|i: int|
            0 <= i < a.len() ==> match #[trigger] a[i] {
                FrameV::Array(s) => slot_ok(s),
                _ => true,
            },
        _ => true,
    }
}

/// A node entry of slot entry `s` that is not an array.
pub open spec fn slot_has_non_array(s: Seq<FrameV>) -> bool {
    exists|j: int| 2 <= j < s.len() && !(#[trigger] s[j] is Array)
}

/// A node entry of slot entry `s` that is an array but does not start with a
/// host and a port.
pub open spec fn slot_has_bad_array(s: Seq<FrameV>) -> bool {
    exists|j: int| 2 <= j < s.len() && #[trigger] s[j] is Array && !node_ok(s[j])
}

/// Some slot entry of the slot map holds a node entry that is not an array.
pub open spec fn has_non_array_node(f: FrameV) -> bool {
    match f {
        FrameV::Array(a) => exists|i: int|
            0 <= i < a.len() && #[trigger] a[i] is Array && slot_has_non_array(a[i]->Array_0),
        _ => false,
    }
}

/// Some slot entry of the slot map holds a node array that does not start
/// with a host and a port.
pub open spec fn has_bad_array_node(f: FrameV) -> bool {
    match f {
        FrameV::Array(a) => exists|i: int|
            0 <= i < a.len() && #[trigger] a[i] is Array && slot_has_bad_array(a[i]->Array_0),
        _ => false,
    }
}

/// The node entry with its port replaced.
pub open spec fn rewrite_node(n: FrameV, port: int) -> FrameV {
    match n {
        FrameV::Array(t) => FrameV::Array(t.update(1, FrameV::Integer(port))),
        _ => n,
    }
}

/// The slot entry with every node port replaced.
pub open spec fn rewrite_slot(s: Seq<FrameV>, port: int) -> Seq<FrameV> {
    Seq::new(
        s.len(),
        |j: int|
            if j < 2 {
                s[j]
            } else {
                rewrite_node(s[j], port)
            },
    )
}

/// The slot map with every node port replaced.
pub open spec fn rewrite_slot_map(f: FrameV, port: int) -> FrameV {
    match f {
        FrameV::Array(a) => FrameV::Array(
            Seq::new(
                a.len(),
                |i: int|
                    match a[i] {
                        FrameV::Array(s) => FrameV::Array(rewrite_slot(s, port)),
                        other => other,
                    },
            ),
        ),
        _ => f,
    }
}

fn rewrite_node_exec(n: &Frame, new_port: u16) -> (r: Result<Frame, RewriteError>)
    ensures
        r is Ok <==> node_ok(n@),
        r matches Ok(m) ==> m@ == rewrite_node(n@, new_port as int),
        r matches Err(e) ==> (e == RewriteError::UnexpectedValue <==> !(n@ is Array)),
{
    match n {
        Frame::Array(t) => {
            proof {
                lemma_array_view(t);
            }
            if t.len() < 2 {
                return Err(RewriteError::ExpectedHostPort);
            }
            match (&t[0], &t[1]) {
                (Frame::BulkString(_), Frame::Integer(_)) => {},
                _ => {
                    return Err(RewriteError::ExpectedHostPort);
                },
            }
            let mut out: Vec<Frame> = Vec::new();
            let mut j: usize = 0;
            while j < t.len()
                invariant
                    j <= t.len(),
                    out.len() == j,
                    forall|k: int|
                        0 <= k < j ==> out[k]@ == (if k == 1 {
                            FrameV::Integer(new_port as int)
                        } else {
                            t[k]@
                        }),
                decreases t.len() - j,
            {
                if j == 1 {
                    out.push(Frame::Integer(new_port as i64));
                } else {
                    out.push(t[j].deep_copy());
                }
                j += 1;
            }
            proof {
                lemma_array_view(&out);
                assert(frames_view(out@) =~= frames_view(t@).update(1, FrameV::Integer(new_port as int)));
            }
            Ok(Frame::Array(out))
        }
        _ => Err(RewriteError::UnexpectedValue),
    }
}

fn rewrite_slot_exec(s: &Vec<Frame>, new_port: u16) -> (r: Result<Vec<Frame>, RewriteError>)
    ensures
        r is Ok <==> slot_ok(frames_view(s@)),
        r matches Ok(v) ==> frames_view(v@) == rewrite_slot(frames_view(s@), new_port as int),
        r == Err::<Vec<Frame>, RewriteError>(RewriteError::UnexpectedValue) ==> slot_has_non_array(
            frames_view(s@),
        ),
        r == Err::<Vec<Frame>, RewriteError>(RewriteError::ExpectedHostPort) ==> slot_has_bad_array(
            frames_view(s@),
        ),
{
    let mut out: Vec<Frame> = Vec::new();
    let mut j: usize = 0;
    while j < s.len()
        invariant
            j <= s.len(),
            out.len() == j,
            forall|k: int| 2 <= k < j ==> #[trigger] node_ok(frames_view(s@)[k]),
            forall|k: int|
                0 <= k < j ==> out[k]@ == #[trigger] rewrite_slot(frames_view(s@), new_port as int)[k],
        decreases s.len() - j,
    {
        if j < 2 {
            out.push(s[j].deep_copy());
        } else {
            match rewrite_node_exec(&s[j], new_port) {
                Ok(n) => out.push(n),
                Err(e) => {
                    assert(!node_ok(frames_view(s@)[j as int]));
                    proof {
                        if e == RewriteError::UnexpectedValue {
                            assert(!(frames_view(s@)[j as int] is Array));
                        } else {
                            assert(frames_view(s@)[j as int] is Array);
                        }
                    }
                    return Err(e);
                },
            }
        }
        j += 1;
    }
    assert(frames_view(out@) =~= rewrite_slot(frames_view(s@), new_port as int));
    Ok(out)
}

/// Rewrites the ports of a response to a `CLUSTER SLOTS` request to
/// `new_port`. On an error the frame is left as it was.
pub fn rewrite_port(frame: &mut Frame, new_port: u16) -> (r: Result<(), RewriteError>)
    ensures
        r is Ok <==> slot_map_ok(old(frame)@),
        r is Ok ==> final(frame)@ == rewrite_slot_map(old(frame)@, new_port as int),
        r is Err ==> final(frame)@ == old(frame)@,
        r == Err::<(), RewriteError>(RewriteError::UnexpectedValue) ==> has_non_array_node(old(frame)@),
        r == Err::<(), RewriteError>(RewriteError::ExpectedHostPort) ==> has_bad_array_node(old(frame)@),
{
    let rewritten = match &*frame {
        Frame::Array(a) => {
            proof {
                lemma_array_view(a);
            }
            let ghost fa = frames_view(a@);
            let mut out: Vec<Frame> = Vec::new();
            let mut i: usize = 0;
            while i < a.len()
                invariant
                    i <= a.len(),
                    out.len() == i,
                    fa == frames_view(a@),
                    old(frame)@ == FrameV::Array(fa),
                    forall|k: int|
                        0 <= k < i ==> match #[trigger] fa[k] {
                            FrameV::Array(s) => slot_ok(s),
                            _ => true,
                        },
                    forall|k: int|
                        0 <= k < i ==> out[k]@ == match #[trigger] fa[k] {
                            FrameV::Array(s) => FrameV::Array(rewrite_slot(s, new_port as int)),
                            other => other,
                        },
                decreases a.len() - i,
            {
                match &a[i] {
                    Frame::Array(s) => {
                        proof {
                            lemma_array_view(s);
                        }
                        match rewrite_slot_exec(s, new_port) {
                            Ok(v) => {
                                proof {
                                    lemma_array_view(&v);
                                }
                                out.push(Frame::Array(v));
                            },
                            Err(e) => {
                                assert(fa[i as int] == FrameV::Array(frames_view(s@)));
                                assert(fa[i as int]->Array_0 == frames_view(s@));
                                return Err(e);
                            },
                        }
                    },
                    other => out.push(other.deep_copy()),
                }
                i += 1;
            }
            proof {
                lemma_array_view(&out);
                if let FrameV::Array(m) = rewrite_slot_map(Frame::Array(*a)@, new_port as int) {
                    assert(frames_view(out@) =~= m);
                }
            }
            Frame::Array(out)
        }
        other => other.deep_copy(),
    };
    *frame = rewritten;
    Ok(())
}

} // verus!
