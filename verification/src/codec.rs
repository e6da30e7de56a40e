//! The input decoder and its inverse. The agreed blob format is fixed and
//! self-describing: a 4-byte little-endian iteration count, a 4-byte
//! little-endian length prefix, then exactly that many data bytes.

use vstd::prelude::*;

verus! {

/// Failure of the decoder on a blob that does not match the expected shape.
#[derive(Clone, Copy, Debug, PartialEq, Eq, Structural)]
pub enum DecodeError {
    /// The blob ends before the 8-byte header or the announced data bytes do.
    Truncated,
    /// The blob holds bytes beyond the announced data bytes.
    TrailingBytes,
}

/// The four little-endian bytes of a 32-bit value.
pub open spec fn u32_le_bytes(n: u32) -> Seq<u8> {
    seq![
        (n & 0xff) as u8,
        ((n >> 8) & 0xff) as u8,
        ((n >> 16) & 0xff) as u8,
        ((n >> 24) & 0xff) as u8,
    ]
}

/// The 32-bit value read from four little-endian bytes.
pub open spec fn u32_from_le(b: Seq<u8>) -> u32
    recommends
        b.len() == 4,
{
    (b[0] as u32) | ((b[1] as u32) << 8) | ((b[2] as u32) << 16) | ((b[3] as u32) << 24)
}

/// The encoding of a pair: iteration count, data length, then the data.
pub open spec fn encoded(num_iter: u32, data: Seq<u8>) -> Seq<u8>
    recommends
        data.len() <= u32::MAX,
{
    u32_le_bytes(num_iter) + u32_le_bytes(data.len() as u32) + data
}

/// A blob matches the expected shape: it holds the full 8-byte header and
/// exactly as many data bytes as the length prefix announces.
pub open spec fn valid_encoding(raw: Seq<u8>) -> bool {
    raw.len() >= 8 && raw.len() == 8 + u32_from_le(raw.subrange(4, 8))
}

/// The iteration count a blob of the expected shape carries.
pub open spec fn decoded_num_iter(raw: Seq<u8>) -> u32 {
    u32_from_le(raw.subrange(0, 4))
}

/// The data bytes a blob of the expected shape carries.
pub open spec fn decoded_data(raw: Seq<u8>) -> Seq<u8> {
    raw.skip(8)
}

/// Reads the four little-endian bytes at `off` as a 32-bit value.
fn read_u32_le(raw: &[u8], off: usize) -> (r: u32)
    requires
        off + 4 <= raw@.len(),
    ensures
        r == u32_from_le(raw@.subrange(off as int, off as int + 4)),
{
    let b0 = raw[off];
    let b1 = raw[off + 1];
    let b2 = raw[off + 2];
    let b3 = raw[off + 3];
    (b0 as u32) | ((b1 as u32) << 8u32) | ((b2 as u32) << 16u32) | ((b3 as u32) << 24u32)
}

/// Parses an input blob into its iteration count and data bytes, with no
/// further validation of either value. Succeeds exactly on blobs of the
/// expected shape; a blob that ends before the header or the announced data
/// bytes do is `Truncated`, one with bytes to spare is `TrailingBytes`.
pub fn decode(raw: &[u8]) -> (r: Result<(u32, Vec<u8>), DecodeError>)
    ensures
        r is Ok <==> valid_encoding(raw@),
        r matches Ok(pair) ==> pair.0 == decoded_num_iter(raw@) && pair.1@ == decoded_data(raw@),
        raw@.len() < 8 ==> r == Err::<(u32, Vec<u8>), DecodeError>(DecodeError::Truncated),
        raw@.len() >= 8 && raw@.len() < 8 + u32_from_le(raw@.subrange(4, 8)) ==> r == Err::<(
            u32,
            Vec<u8>,
        ), DecodeError>(DecodeError::Truncated),
        raw@.len() > 8 + u32_from_le(raw@.subrange(4, 8)) && raw@.len() >= 8 ==> r == Err::<(
            u32,
            Vec<u8>,
        ), DecodeError>(DecodeError::TrailingBytes),
{
    if raw.len() < 8 {
        return Err(DecodeError::Truncated);
    }
    let num_iter = read_u32_le(raw, 0);
    let len = read_u32_le(raw, 4);
    let body_len: usize = raw.len() - 8;
    if body_len < len as usize {
        return Err(DecodeError::Truncated);
    }
    if body_len > len as usize {
        return Err(DecodeError::TrailingBytes);
    }
    let mut data: Vec<u8> = Vec::new();
    let mut i: usize = 8;
    while i < raw.len()
        invariant
            8 <= i <= raw@.len(),
            data@ == raw@.subrange(8, i as int),
        decreases raw@.len() - i,
    {
        let b = raw[i];
        data.push(b);
        assert(data@ =~= raw@.subrange(8, i as int + 1));
        i = i + 1;
    }
    assert(data@ =~= raw@.skip(8));
    Ok((num_iter, data))
}

/// Appends the four little-endian bytes of `n`.
fn push_u32_le(out: &mut Vec<u8>, n: u32)
    ensures
        final(out)@ == old(out)@ + u32_le_bytes(n),
{
    out.push((n & 0xff) as u8);
    out.push(((n >> 8u32) & 0xff) as u8);
    out.push(((n >> 16u32) & 0xff) as u8);
    out.push(((n >> 24u32) & 0xff) as u8);
    assert(out@ =~= old(out)@ + u32_le_bytes(n));
}

/// Builds the blob that `decode` reverses: the little-endian iteration
/// count, the little-endian data length, then the data bytes themselves.
pub fn encode(num_iter: u32, data: &[u8]) -> (r: Vec<u8>)
    requires
        data@.len() <= u32::MAX,
    ensures
        r@ == encoded(num_iter, data@),
{
    let mut out: Vec<u8> = Vec::new();
    push_u32_le(&mut out, num_iter);
    push_u32_le(&mut out, data.len() as u32);
    let mut i: usize = 0;
    while i < data.len()
        invariant
            i <= data@.len(),
            data@.len() <= u32::MAX,
            out@ == u32_le_bytes(num_iter) + u32_le_bytes(data@.len() as u32) + data@.subrange(
                0,
                i as int,
            ),
        decreases data@.len() - i,
    {
        let b = data[i];
        out.push(b);
        assert(out@ =~= u32_le_bytes(num_iter) + u32_le_bytes(data@.len() as u32) + data@.subrange(
            0,
            i as int + 1,
        ));
        i = i + 1;
    }
    assert(out@ =~= encoded(num_iter, data@));
    out
}

/// Law: reading back the four little-endian bytes of a value gives the
/// value itself.
pub proof fn lemma_u32_le_round_trip(n: u32)
    ensures
        u32_from_le(u32_le_bytes(n)) == n,
{
    assert(((n & 0xff) as u8 as u32) | ((((n >> 8u32) & 0xff) as u8 as u32) << 8u32) | ((((n
        >> 16u32) & 0xff) as u8 as u32) << 16u32) | ((((n >> 24u32) & 0xff) as u8 as u32)
        << 24u32) == n) by (bit_vector);
}

/// Law (decoder round trip): encoding a pair with the agreed format and
/// decoding the blob reproduces the original values exactly.
pub proof fn lemma_round_trip(num_iter: u32, data: Seq<u8>)
    requires
        data.len() <= u32::MAX,
    ensures
        valid_encoding(encoded(num_iter, data)),
        decoded_num_iter(encoded(num_iter, data)) == num_iter,
        decoded_data(encoded(num_iter, data)) == data,
{
    let raw = encoded(num_iter, data);
    assert(raw.subrange(0, 4) =~= u32_le_bytes(num_iter));
    assert(raw.subrange(4, 8) =~= u32_le_bytes(data.len() as u32));
    assert(raw.skip(8) =~= data);
    lemma_u32_le_round_trip(num_iter);
    lemma_u32_le_round_trip(data.len() as u32);
}

} // verus!
