//! Byte strings: comparison, fixed-width integers and hexadecimal notation.
use vstd::prelude::*;

verus! {

/// Whether two byte strings are equal.
pub fn bytes_eq(a: &[u8], b: &[u8]) -> (r: bool)
    ensures
        r == (a@ == b@),
{
    if a.len() != b.len() {
        return false;
    }
    let mut i: usize = 0;
    while i < a.len()
        invariant
            a@.len() == b@.len(),
            i <= a@.len(),
            forall|k: int| 0 <= k < i ==> a@[k] == b@[k],
        decreases a@.len() - i,
    {
        if a[i] != b[i] {
            return false;
        }
        i = i + 1;
    }
    assert(a@ =~= b@);
    true
}

/// Appends the bytes of `data` from `from` up to but not including `to`.
pub fn extend(out: &mut Vec<u8>, data: &[u8], from: usize, to: usize)
    requires
        from <= to <= data@.len(),
    ensures
        final(out)@ == old(out)@ + data@.subrange(from as int, to as int),
{
    let mut i: usize = from;
    while i < to
        invariant
            from <= i <= to <= data@.len(),
            out@ == old(out)@ + data@.subrange(from as int, i as int),
        decreases to - i,
    {
        out.push(data[i]);
        i = i + 1;
        assert(out@ =~= old(out)@ + data@.subrange(from as int, i as int));
    }
}

/// A 16-bit number in network order.
pub open spec fn be16(n: u16) -> Seq<u8> {
    seq![(n / 256) as u8, (n % 256) as u8]
}

/// A 32-bit number in network order.
pub open spec fn be32(n: u32) -> Seq<u8> {
    seq![
        (n / 0x100_0000) as u8,
        (n / 0x1_0000 % 256) as u8,
        (n / 0x100 % 256) as u8,
        (n % 256) as u8,
    ]
}

/// A 32-bit number in little-endian order.
pub open spec fn le32(n: u32) -> Seq<u8> {
    seq![
        (n % 256) as u8,
        (n / 0x100 % 256) as u8,
        (n / 0x1_0000 % 256) as u8,
        (n / 0x100_0000) as u8,
    ]
}

/// The number that two bytes in network order denote.
pub open spec fn from_be16(b: Seq<u8>) -> u16 {
    (b[0] * 256 + b[1]) as u16
}

/// The number that four bytes in network order denote.
pub open spec fn from_be32(b: Seq<u8>) -> u32 {
    (b[0] * 0x100_0000 + b[1] * 0x1_0000 + b[2] * 0x100 + b[3]) as u32
}

/// Decoding a number in network order gives back what was encoded.
pub proof fn be_round_trip(p: u16, n: u32)
    ensures
        from_be16(be16(p)) == p,
        from_be32(be32(n)) == n,
{
}

/// Appends a 16-bit number in network order.
pub fn push_be16(out: &mut Vec<u8>, n: u16)
    ensures
        final(out)@ == old(out)@ + be16(n),
{
    out.push((n / 256) as u8);
    out.push((n % 256) as u8);
    assert(out@ =~= old(out)@ + be16(n));
}

/// Appends a 32-bit number in network order.
pub fn push_be32(out: &mut Vec<u8>, n: u32)
    ensures
        final(out)@ == old(out)@ + be32(n),
{
    out.push((n / 0x100_0000) as u8);
    out.push((n / 0x1_0000 % 256) as u8);
    out.push((n / 0x100 % 256) as u8);
    out.push((n % 256) as u8);
    assert(out@ =~= old(out)@ + be32(n));
}

/// Appends a 32-bit number in little-endian order.
pub fn push_le32(out: &mut Vec<u8>, n: u32)
    ensures
        final(out)@ == old(out)@ + le32(n),
{
    out.push((n % 256) as u8);
    out.push((n / 0x100 % 256) as u8);
    out.push((n / 0x1_0000 % 256) as u8);
    out.push((n / 0x100_0000) as u8);
    assert(out@ =~= old(out)@ + le32(n));
}

/// Reads a 16-bit number in network order.
pub fn read_be16(data: &[u8], at: usize) -> (r: u16)
    requires
        at + 2 <= data@.len(),
    ensures
        r == from_be16(data@.subrange(at as int, at + 2)),
{
    (data[at] as u16) * 256 + (data[at + 1] as u16)
}

/// Reads a 32-bit number in network order.
pub fn read_be32(data: &[u8], at: usize) -> (r: u32)
    requires
        at + 4 <= data@.len(),
    ensures
        r == from_be32(data@.subrange(at as int, at + 4)),
{
    (data[at] as u32) * 0x100_0000 + (data[at + 1] as u32) * 0x1_0000 + (data[at + 2] as u32)
        * 0x100 + (data[at + 3] as u32)
}

/// The lower-case hexadecimal digit of a value below sixteen.
pub open spec fn hex_digit(n: int) -> char {
    if n < 10 {
        (48 + n) as char
    } else {
        (87 + n) as char
    }
}

/// The hexadecimal notation of a byte string: two lower-case digits per byte, the upper half of
/// the byte first.
pub open spec fn hex_text(data: Seq<u8>) -> Seq<char> {
    Seq::new(
        2 * data.len(),
        |i: int|
            if i % 2 == 0 {
                hex_digit(data[i / 2] as int / 16)
            } else {
                hex_digit(data[i / 2] as int % 16)
            },
    )
}

/// `hex::encode`: the lower-case hexadecimal notation of `data`. The result has to fit in memory.
#[verifier::external_body]
pub(crate) fn hex_encode(data: &[u8]) -> (r: String)
    requires
        2 * data@.len() <= isize::MAX,
    ensures
        r@ == hex_text(data@),
{
    hex::encode(data)
}

// ---------------------------------------------------------------------------
// Laws
// ---------------------------------------------------------------------------

/// In network order the most significant byte comes first, in little-endian order last.
pub proof fn bytes_are_ordered(p: u16, n: u32)
    ensures
        be16(p).len() == 2,
        be16(p)[0] * 0x100 + be16(p)[1] == p,
        be32(n).len() == 4,
        be32(n)[0] * 0x100_0000 + be32(n)[1] * 0x1_0000 + be32(n)[2] * 0x100 + be32(n)[3] == n,
        le32(n).len() == 4,
        le32(n)[3] * 0x100_0000 + le32(n)[2] * 0x1_0000 + le32(n)[1] * 0x100 + le32(n)[0] == n,
{
}

/// Bytes in network order denote the sum of their values, each worth 256 times the next.
pub proof fn bytes_denote_their_sum(b: Seq<u8>)
    ensures
        b.len() == 2 ==> from_be16(b) == b[0] * 0x100 + b[1],
        b.len() == 4 ==> from_be32(b) == b[0] * 0x100_0000 + b[1] * 0x1_0000 + b[2] * 0x100 + b[3],
{
}

/// The value of a lower-case hexadecimal digit.
pub open spec fn hex_value(c: char) -> int {
    if '0' <= c <= '9' {
        c as int - '0' as int
    } else {
        10 + (c as int - 'a' as int)
    }
}

/// Hexadecimal notation has two lower-case digits for each byte, which denote that byte.
pub proof fn hex_text_denotes_the_bytes(data: Seq<u8>)
    ensures
        hex_text(data).len() == 2 * data.len(),
        forall|i: int|
            0 <= i < data.len() ==> {
                let upper = #[trigger] hex_text(data)[2 * i];
                let lower = hex_text(data)[2 * i + 1];
                &&& '0' <= upper <= '9' || 'a' <= upper <= 'f'
                &&& '0' <= lower <= '9' || 'a' <= lower <= 'f'
                &&& 16 * hex_value(upper) + hex_value(lower) == #[trigger] data[i]
            },
{
    assert forall|i: int| 0 <= i < data.len() implies {
        let upper = #[trigger] hex_text(data)[2 * i];
        let lower = hex_text(data)[2 * i + 1];
        &&& '0' <= upper <= '9' || 'a' <= upper <= 'f'
        &&& '0' <= lower <= '9' || 'a' <= lower <= 'f'
        &&& 16 * hex_value(upper) + hex_value(lower) == #[trigger] data[i]
    } by {
        assert((2 * i) / 2 == i && (2 * i) % 2 == 0);
        assert((2 * i + 1) / 2 == i && (2 * i + 1) % 2 == 1);
        assert(hex_text(data)[2 * i] == hex_digit(data[i] as int / 16));
        assert(hex_text(data)[2 * i + 1] == hex_digit(data[i] as int % 16));
    }
}

} // verus!
