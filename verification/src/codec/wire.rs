//! The encodings of the primitive types.

use vstd::prelude::*;

verus! {

/// The identifier before the elements of a boxed vector.
pub const VECTOR_ID: u32 = 0x1cb5_c415;

/// The identifier that stands for the boolean `true`.
pub const BOOL_TRUE_ID: u32 = 0x9972_75b5;

/// The identifier that stands for the boolean `false`.
pub const BOOL_FALSE_ID: u32 = 0xbc79_9737;

/// The length from which on a byte string has the long form of its length.
pub const LONG_FORM: usize = 254;

/// The length that no byte string can reach: the long form has three bytes
/// for it.
pub const LENGTH_LIMIT: usize = 0x100_0000;

/// Why bytes could not be decoded.
#[derive(Clone, Copy, Debug, PartialEq, Eq, Structural)]
pub enum DecodeError {
    /// The bytes end before the value does.
    UnexpectedEof,
    /// The identifier belongs to no constructor of the type that is read.
    UnexpectedConstructor { id: u32 },
    /// The count of a vector is negative.
    NegativeCount,
    /// The type is none that the schema or the format knows.
    UnknownType,
    /// The value is nested more deeply than the reader was allowed to go.
    TooDeep,
}

/// The four bytes of `v`, the least significant first.
pub open spec fn u32_bytes(v: u32) -> Seq<u8> {
    seq![v as u8, (v >> 8) as u8, (v >> 16) as u8, (v >> 24) as u8]
}

/// The number of which `b0` to `b3` are the bytes, the least significant
/// first.
pub open spec fn u32_from(b0: u8, b1: u8, b2: u8, b3: u8) -> u32 {
    (b0 as u32) | ((b1 as u32) << 8) | ((b2 as u32) << 16) | ((b3 as u32) << 24)
}

/// The number that the four bytes of `s` at `pos` write.
pub open spec fn u32_at(s: Seq<u8>, pos: int) -> u32 {
    u32_from(s[pos], s[pos + 1], s[pos + 2], s[pos + 3])
}

/// The eight bytes of `v`, the least significant first.
pub open spec fn u64_bytes(v: u64) -> Seq<u8> {
    u32_bytes(v as u32) + u32_bytes((v >> 32) as u32)
}

/// The number that the eight bytes of `s` at `pos` write.
pub open spec fn u64_at(s: Seq<u8>, pos: int) -> u64 {
    (u32_at(s, pos) as u64) | ((u32_at(s, pos + 4) as u64) << 32)
}

/// The four bytes of a signed number: those of its two's complement.
pub open spec fn i32_bytes(v: i32) -> Seq<u8> {
    u32_bytes(v as u32)
}

/// The signed number that the four bytes of `s` at `pos` write.
pub open spec fn i32_at(s: Seq<u8>, pos: int) -> i32 {
    u32_at(s, pos) as i32
}

/// The eight bytes of a signed number: those of its two's complement.
pub open spec fn i64_bytes(v: i64) -> Seq<u8> {
    u64_bytes(v as u64)
}

/// The signed number that the eight bytes of `s` at `pos` write.
pub open spec fn i64_at(s: Seq<u8>, pos: int) -> i64 {
    u64_at(s, pos) as i64
}

/// How many bytes fill `n` bytes up to a multiple of four.
pub open spec fn padding(n: int) -> int {
    (4 - n % 4) % 4
}

/// `n` bytes that are zero.
pub open spec fn zeros(n: int) -> Seq<u8> {
    Seq::new(n as nat, |i: int| 0u8)
}

/// The encoding of a byte string: its length, in one byte where it is below
/// 254 and in three bytes after a byte 254 otherwise; the bytes; and zeros up
/// to a multiple of four bytes in all.
pub open spec fn bytes_encoding(data: Seq<u8>) -> Seq<u8> {
    if data.len() < LONG_FORM {
        seq![data.len() as u8] + data + zeros(padding(1 + data.len() as int))
    } else {
        seq![
            254u8,
            data.len() as u8,
            (data.len() as u32 >> 8) as u8,
            (data.len() as u32 >> 16) as u8,
        ] + data + zeros(padding(data.len() as int))
    }
}

/// The length that the header of a byte string at `pos` announces.
pub open spec fn announced_length(s: Seq<u8>, pos: int) -> int {
    if s[pos] == 254 {
        u32_from(s[pos + 1], s[pos + 2], s[pos + 3], 0) as int
    } else {
        s[pos] as int
    }
}

/// The length of the header of a byte string at `pos`.
pub open spec fn header_length(s: Seq<u8>, pos: int) -> int {
    if s[pos] == 254 {
        4
    } else {
        1
    }
}

/// The byte string that `s` holds at `pos`, and where it ends with its
/// padding; `None` where `s` ends before it. What the padding holds is not
/// looked at.
pub open spec fn bytes_at(s: Seq<u8>, pos: int) -> Option<(Seq<u8>, int)> {
    if pos < 0 || pos >= s.len() || pos + header_length(s, pos) > s.len() {
        None
    } else {
        let start = pos + header_length(s, pos);
        let end = start + announced_length(s, pos);
        let next = end + padding(end - pos);
        if next <= s.len() {
            Some((s.subrange(start, end), next))
        } else {
            None
        }
    }
}

/// The bytes of a number, read back, give the number.
pub proof fn lemma_u32_round_trip(v: u32)
    ensures
        u32_from(v as u8, (v >> 8) as u8, (v >> 16) as u8, (v >> 24) as u8) == v,
{
    assert(((v as u8) as u32) | ((((v >> 8) as u8) as u32) << 8) | ((((v >> 16) as u8) as u32)
        << 16) | ((((v >> 24) as u8) as u32) << 24) == v) by (bit_vector);
}

/// Where `s` holds the bytes of `v` at `pos`, `v` is read there.
pub proof fn lemma_u32_at(s: Seq<u8>, pos: int, v: u32)
    requires
        0 <= pos,
        pos + 4 <= s.len(),
        s.subrange(pos, pos + 4) == u32_bytes(v),
    ensures
        u32_at(s, pos) == v,
{
    let part = s.subrange(pos, pos + 4);
    assert(part[0] == s[pos]);
    assert(part[1] == s[pos + 1]);
    assert(part[2] == s[pos + 2]);
    assert(part[3] == s[pos + 3]);
    lemma_u32_round_trip(v);
}

/// Where `s` holds the bytes of `v` at `pos`, `v` is read there.
pub proof fn lemma_u64_at(s: Seq<u8>, pos: int, v: u64)
    requires
        0 <= pos,
        pos + 8 <= s.len(),
        s.subrange(pos, pos + 8) == u64_bytes(v),
    ensures
        u64_at(s, pos) == v,
{
    let part = s.subrange(pos, pos + 8);
    assert(s.subrange(pos, pos + 4) =~= part.subrange(0, 4));
    assert(s.subrange(pos + 4, pos + 8) =~= part.subrange(4, 8));
    assert(part.subrange(0, 4) =~= u32_bytes(v as u32));
    assert(part.subrange(4, 8) =~= u32_bytes((v >> 32) as u32));
    lemma_u32_at(s, pos, v as u32);
    lemma_u32_at(s, pos + 4, (v >> 32) as u32);
    let low = v as u32;
    let high = (v >> 32) as u32;
    assert((low as u64) | ((high as u64) << 32) == v) by (bit_vector)
        requires
            low == v as u32,
            high == (v >> 32) as u32,
    ;
}

/// A signed number survives the way through its two's complement.
pub proof fn lemma_i32_round_trip(v: i32)
    ensures
        (v as u32) as i32 == v,
{
    assert((v as u32) as i32 == v) by (bit_vector);
}

/// A signed number survives the way through its two's complement.
pub proof fn lemma_i64_round_trip(v: i64)
    ensures
        (v as u64) as i64 == v,
{
    assert((v as u64) as i64 == v) by (bit_vector);
}

/// The encoding of a byte string fills a whole number of four-byte words.
pub proof fn lemma_bytes_encoding_aligned(data: Seq<u8>)
    ensures
        bytes_encoding(data).len() % 4 == 0,
        bytes_encoding(data).len() == if data.len() < LONG_FORM {
            1 + data.len() + padding(1 + data.len() as int)
        } else {
            4 + data.len() + padding(data.len() as int)
        },
{
}

/// A byte string is read back from where its encoding stands: the same
/// bytes, and the position after its padding.
pub proof fn lemma_bytes_at(s: Seq<u8>, pos: int, data: Seq<u8>)
    requires
        data.len() < LENGTH_LIMIT,
        0 <= pos,
        pos + bytes_encoding(data).len() <= s.len(),
        s.subrange(pos, pos + bytes_encoding(data).len()) == bytes_encoding(data),
    ensures
        bytes_at(s, pos) == Some((data, pos + bytes_encoding(data).len())),
{
    let code = bytes_encoding(data);
    let part = s.subrange(pos, pos + code.len());
    lemma_bytes_encoding_aligned(data);
    assert(part[0] == s[pos]);
    if data.len() < LONG_FORM {
        assert(code[0] == data.len() as u8);
        assert(s.subrange(pos + 1, pos + 1 + data.len()) =~= data) by {
            assert forall|i: int| 0 <= i < data.len() implies s[pos + 1 + i] == data[i] by {
                assert(part[1 + i] == s[pos + 1 + i]);
                assert(code[1 + i] == data[i]);
            }
        }
    } else {
        let n = data.len() as u32;
        assert(part[1] == s[pos + 1]);
        assert(part[2] == s[pos + 2]);
        assert(part[3] == s[pos + 3]);
        assert(code[0] == 254u8);
        assert(code[1] == n as u8);
        assert(code[2] == (n >> 8) as u8);
        assert(code[3] == (n >> 16) as u8);
        assert(((n as u8) as u32) | ((((n >> 8) as u8) as u32) << 8) | ((((n >> 16) as u8) as u32)
            << 16) | ((0u8 as u32) << 24) == n) by (bit_vector)
            requires
                n < 0x100_0000u32,
        ;
        assert(s.subrange(pos + 4, pos + 4 + data.len()) =~= data) by {
            assert forall|i: int| 0 <= i < data.len() implies s[pos + 4 + i] == data[i] by {
                assert(part[4 + i] == s[pos + 4 + i]);
                assert(code[4 + i] == data[i]);
            }
        }
    }
}

/// Appends the four bytes of `v`.
pub fn write_u32(buf: &mut Vec<u8>, v: u32)
    ensures
        final(buf)@ == old(buf)@ + u32_bytes(v),
{
    buf.push(#[verifier::truncate] (v as u8));
    buf.push(#[verifier::truncate] ((v >> 8) as u8));
    buf.push(#[verifier::truncate] ((v >> 16) as u8));
    buf.push(#[verifier::truncate] ((v >> 24) as u8));
    assert(buf@ =~= old(buf)@ + u32_bytes(v));
}

/// Appends the four bytes of a signed number.
pub fn write_i32(buf: &mut Vec<u8>, v: i32)
    ensures
        final(buf)@ == old(buf)@ + i32_bytes(v),
{
    write_u32(buf, #[verifier::truncate] (v as u32));
}

/// Appends the eight bytes of `v`.
pub fn write_u64(buf: &mut Vec<u8>, v: u64)
    ensures
        final(buf)@ == old(buf)@ + u64_bytes(v),
{
    write_u32(buf, #[verifier::truncate] (v as u32));
    write_u32(buf, #[verifier::truncate] ((v >> 32) as u32));
    assert(buf@ =~= old(buf)@ + u64_bytes(v));
}

/// Appends the eight bytes of a signed number.
pub fn write_i64(buf: &mut Vec<u8>, v: i64)
    ensures
        final(buf)@ == old(buf)@ + i64_bytes(v),
{
    write_u64(buf, #[verifier::truncate] (v as u64));
}

/// Appends the bytes of `data` as they are.
pub fn write_raw(buf: &mut Vec<u8>, data: &[u8])
    ensures
        final(buf)@ == old(buf)@ + data@,
{
    let mut i: usize = 0;
    while i < data.len()
        invariant
            i <= data@.len(),
            buf@ == old(buf)@ + data@.take(i as int),
        decreases data@.len() - i,
    {
        buf.push(data[i]);
        assert(buf@ =~= old(buf)@ + data@.take(i + 1));
        i = i + 1;
    }
    assert(data@.take(i as int) =~= data@);
}

/// Appends `n` zeros.
fn write_zeros(buf: &mut Vec<u8>, n: usize)
    ensures
        final(buf)@ == old(buf)@ + zeros(n as int),
{
    let mut i: usize = 0;
    while i < n
        invariant
            i <= n,
            buf@ == old(buf)@ + zeros(i as int),
        decreases n - i,
    {
        buf.push(0);
        assert(buf@ =~= old(buf)@ + zeros(i + 1));
        i = i + 1;
    }
}

/// Appends the encoding of a byte string, unless it is too long to have one.
pub fn write_bytes(buf: &mut Vec<u8>, data: &[u8]) -> (written: bool)
    ensures
        written == (data@.len() < LENGTH_LIMIT),
        final(buf)@ == if written {
            old(buf)@ + bytes_encoding(data@)
        } else {
            old(buf)@
        },
{
    let n = data.len();
    if n >= LENGTH_LIMIT {
        return false;
    }
    if n < LONG_FORM {
        buf.push(n as u8);
        write_raw(buf, data);
        write_zeros(buf, (4 - (1 + n) % 4) % 4);
    } else {
        let wide: u32 = n as u32;
        buf.push(254);
        buf.push(#[verifier::truncate] (wide as u8));
        buf.push(#[verifier::truncate] ((wide >> 8) as u8));
        buf.push(#[verifier::truncate] ((wide >> 16) as u8));
        write_raw(buf, data);
        write_zeros(buf, (4 - n % 4) % 4);
    }
    assert(buf@ =~= old(buf)@ + bytes_encoding(data@));
    true
}

/// Reads the four bytes at `pos`.
pub fn read_u32(data: &[u8], pos: usize) -> (r: Option<u32>)
    ensures
        r is Some ==> pos + 4 <= usize::MAX,
        r == if pos + 4 <= data@.len() {
            Some(u32_at(data@, pos as int))
        } else {
            None
        },
{
    if data.len() < 4 || pos > data.len() - 4 {
        return None;
    }
    Some(
        (data[pos] as u32) | ((data[pos + 1] as u32) << 8) | ((data[pos + 2] as u32) << 16) | ((
        data[pos + 3] as u32) << 24),
    )
}

/// Reads the four bytes at `pos` as a signed number.
pub fn read_i32(data: &[u8], pos: usize) -> (r: Option<i32>)
    ensures
        r is Some ==> pos + 4 <= usize::MAX,
        r == if pos + 4 <= data@.len() {
            Some(i32_at(data@, pos as int))
        } else {
            None
        },
{
    match read_u32(data, pos) {
        Some(v) => Some(#[verifier::truncate] (v as i32)),
        None => None,
    }
}

/// Reads the eight bytes at `pos`.
pub fn read_u64(data: &[u8], pos: usize) -> (r: Option<u64>)
    ensures
        r is Some ==> pos + 8 <= usize::MAX,
        r == if pos + 8 <= data@.len() {
            Some(u64_at(data@, pos as int))
        } else {
            None
        },
{
    if data.len() < 8 || pos > data.len() - 8 {
        return None;
    }
    let low = match read_u32(data, pos) {
        Some(v) => v,
        None => {
            return None;
        },
    };
    let high = match read_u32(data, pos + 4) {
        Some(v) => v,
        None => {
            return None;
        },
    };
    Some((low as u64) | ((high as u64) << 32))
}

/// Reads the eight bytes at `pos` as a signed number.
pub fn read_i64(data: &[u8], pos: usize) -> (r: Option<i64>)
    ensures
        r is Some ==> pos + 8 <= usize::MAX,
        r == if pos + 8 <= data@.len() {
            Some(i64_at(data@, pos as int))
        } else {
            None
        },
{
    match read_u64(data, pos) {
        Some(v) => Some(#[verifier::truncate] (v as i64)),
        None => None,
    }
}

/// Reads the byte string at `pos`: its bytes, and the position after its
/// padding.
pub fn read_bytes(data: &[u8], pos: usize) -> (r: Option<(Vec<u8>, usize)>)
    ensures
        match r {
            Some((bytes, next)) => bytes_at(data@, pos as int) == Some((bytes@, next as int)),
            None => bytes_at(data@, pos as int) is None,
        },
{
    let len = data.len();
    if pos >= len {
        return None;
    }
    let first = data[pos];
    let header: usize = if first == 254 {
        4
    } else {
        1
    };
    if header > len - pos {
        return None;
    }
    let announced: usize = if first == 254 {
        let b1 = data[pos + 1];
        let b2 = data[pos + 2];
        let b3 = data[pos + 3];
        let wide = (b1 as u32) | ((b2 as u32) << 8) | ((b3 as u32) << 16) | ((0u8 as u32) << 24);
        assert(wide < 0x100_0000u32) by (bit_vector)
            requires
                wide == (b1 as u32) | ((b2 as u32) << 8) | ((b3 as u32) << 16) | ((0u8 as u32)
                    << 24),
        ;
        wide as usize
    } else {
        first as usize
    };
    let start = pos + header;
    if announced > len - start {
        return None;
    }
    let end = start + announced;
    let pad = (4 - (end - pos) % 4) % 4;
    if pad > len - end {
        return None;
    }
    let mut bytes: Vec<u8> = Vec::new();
    let mut i: usize = start;
    while i < end
        invariant
            start <= i <= end,
            end <= data@.len(),
            bytes@ == data@.subrange(start as int, i as int),
        decreases end - i,
    {
        bytes.push(data[i]);
        assert(bytes@ =~= data@.subrange(start as int, i + 1));
        i = i + 1;
    }
    Some((bytes, end + pad))
}

} // verus!
