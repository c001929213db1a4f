use vstd::prelude::*;

verus! {

/// The four big-endian bytes of `n`.
pub open spec fn be32(n: nat) -> Seq<u8> {
    seq![
        ((n / 16777216) % 256) as u8,
        ((n / 65536) % 256) as u8,
        ((n / 256) % 256) as u8,
        (n % 256) as u8,
    ]
}

/// The body of a Kafka message: what follows its four-byte length header;
/// nothing where the message is shorter than its header.
pub fn strip_length_prefix(bytes: &Vec<u8>) -> (r: Option<Vec<u8>>)
    ensures
        r is Some <==> bytes@.len() >= 4,
        r matches Some(b) ==> b@ == bytes@.subrange(4, bytes@.len() as int),
{
    if bytes.len() < 4 {
        return None;
    }
    let mut out: Vec<u8> = Vec::new();
    let mut i: usize = 4;
    while i < bytes.len()
        invariant
            4 <= i <= bytes@.len(),
            out@ == bytes@.subrange(4, i as int),
        decreases bytes@.len() - i,
    {
        out.push(bytes[i]);
        i += 1;
        assert(out@ =~= bytes@.subrange(4, i as int));
    }
    Some(out)
}

/// Appends `body` to `out` behind a four-byte big-endian header holding its
/// length, as Kafka frames each message.
pub fn push_length_prefixed(out: &mut Vec<u8>, body: &Vec<u8>)
    requires
        body@.len() <= i32::MAX,
    ensures
        final(out)@ == old(out)@ + be32(body@.len()) + body@,
{
    let n = body.len();
    out.push(((n / 16777216) % 256) as u8);
    out.push(((n / 65536) % 256) as u8);
    out.push(((n / 256) % 256) as u8);
    out.push((n % 256) as u8);
    let ghost mid = out@;
    assert(mid =~= old(out)@ + be32(body@.len()));
    let mut i: usize = 0;
    while i < body.len()
        invariant
            i <= body@.len(),
            out@ == mid + body@.subrange(0, i as int),
        decreases body@.len() - i,
    {
        out.push(body[i]);
        i += 1;
        assert(out@ =~= mid + body@.subrange(0, i as int));
    }
    assert(body@.subrange(0, body@.len() as int) =~= body@);
}

/// The length that a four-byte big-endian header holds.
pub fn read_length_prefix(bytes: &Vec<u8>) -> (r: Option<u32>)
    ensures
        r is Some <==> bytes@.len() >= 4,
        r matches Some(n) ==> n == bytes@[0] * 16777216 + bytes@[1] * 65536 + bytes@[2] * 256
            + bytes@[3],
{
    if bytes.len() < 4 {
        return None;
    }
    Some((bytes[0] as u32) * 16777216 + (bytes[1] as u32) * 65536 + (bytes[2] as u32) * 256 + (bytes[3] as u32))
}

/// A header written from a length reads back as that length.
pub proof fn lemma_length_round_trip(n: nat)
    requires
        n <= u32::MAX,
    ensures
        be32(n)[0] * 16777216 + be32(n)[1] * 65536 + be32(n)[2] * 256 + be32(n)[3] == n,
{
    assert(be32(n)[0] * 16777216 + be32(n)[1] * 65536 + be32(n)[2] * 256 + be32(n)[3] == n) by (nonlinear_arith)
        requires
            n <= u32::MAX,
            be32(n)[0] == (n / 16777216) % 256,
            be32(n)[1] == (n / 65536) % 256,
            be32(n)[2] == (n / 256) % 256,
            be32(n)[3] == n % 256,
    ;
}

} // verus!
