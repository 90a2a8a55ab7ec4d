//! The protocol's variable-length signed 32-bit integer.
//!
//! A VarInt stores 7 data bits per byte, least-significant group first; the
//! high bit of each byte says whether another byte follows.  An encoding is
//! canonical (no redundant continuation bytes) and never longer than 5 bytes.

use vstd::prelude::*;

verus! {

/// Errors that can occur when encoding or decoding a protocol VarInt.
#[derive(Debug, Clone, Copy, PartialEq, Eq, Structural)]
pub enum VarIntError {
    /// More than the allowed number of bytes were read before completion.
    TooManyBytes,
    /// There weren't enough bytes in the buffer to finish decoding.
    Incomplete,
}

/// The canonical encoding of the 32-bit pattern `u`: low 7 bits first, the
/// continuation bit set on every byte but the last.
pub open spec fn varint_encoding(u: u32) -> Seq<u8>
    decreases u,
{
    if u < 0x80 {
        seq![u as u8]
    } else {
        seq![(u % 0x80 + 0x80) as u8] + varint_encoding(u / 0x80)
    }
}

/// The value accumulated from the low 7 bits of the first `n` bytes of `s`,
/// group `i` shifted left by `7 * i`.
pub open spec fn varint_value_prefix(s: Seq<u8>, n: int) -> u32
    decreases n,
{
    if n <= 0 {
        0u32
    } else {
        varint_value_prefix(s, n - 1) | (((s[n - 1] & 0x7f) as u32) << ((7 * (n - 1)) as u32))
    }
}

/// `s` begins with a well-delimited VarInt of exactly `n` bytes: the first
/// `n - 1` bytes carry the continuation bit, byte `n - 1` does not, and no
/// more than 5 bytes are used.
pub open spec fn is_varint_boundary(s: Seq<u8>, n: int) -> bool {
    &&& 1 <= n <= 5
    &&& n <= s.len()
    &&& s[n - 1] & 0x80 == 0
    &&& forall|i: int| 0 <= i < n - 1 ==> s[i] & 0x80 != 0
}

/// Some complete VarInt sits at the front of `s`.
pub open spec fn varint_has_boundary(s: Seq<u8>) -> bool {
    exists|n: int| is_varint_boundary(s, n)
}

/// The byte length of the VarInt at the front of `s` (meaningful only when
/// one is there; it is then unique).
pub open spec fn varint_len(s: Seq<u8>) -> int {
    choose|n: int| is_varint_boundary(s, n)
}

/// The 32-bit pattern decoded from the VarInt at the front of `s`.
pub open spec fn varint_value(s: Seq<u8>) -> u32 {
    varint_value_prefix(s, varint_len(s))
}

/// The decoded VarInt at the front of `s`, as the signed value it encodes.
pub open spec fn varint_i32(s: Seq<u8>) -> i32 {
    varint_value(s) as i32
}

/// A VarInt boundary is unique, so `varint_len` agrees with any witness.
pub proof fn lemma_varint_boundary_unique(s: Seq<u8>, n: int)
    requires
        is_varint_boundary(s, n),
    ensures
        varint_has_boundary(s),
        varint_len(s) == n,
{
    let m = choose|m: int| is_varint_boundary(s, m);
    if m < n {
        assert(s[m - 1] & 0x80 != 0);
    } else if n < m {
        assert(s[n - 1] & 0x80 != 0);
    }
}

/// Reads a protocol VarInt from the front of the buffer, returning the value
/// and the number of bytes consumed.  Fails with `Incomplete` when fewer than
/// 5 bytes are available and none of them ends the VarInt, and with
/// `TooManyBytes` when 5 bytes were consumed with the continuation bit still
/// set.
pub fn read_varint(buffer: &[u8]) -> (r: Result<(i32, usize), VarIntError>)
    ensures
        r is Ok <==> varint_has_boundary(buffer@),
        r matches Ok(p) ==> {
            &&& is_varint_boundary(buffer@, p.1 as int)
            &&& p.1 as int == varint_len(buffer@)
            &&& p.0 as u32 == varint_value_prefix(buffer@, p.1 as int)
            &&& p.0 == varint_i32(buffer@)
        },
        r == Err::<(i32, usize), VarIntError>(VarIntError::Incomplete) ==> buffer@.len() < 5
            && (forall|i: int| 0 <= i < buffer@.len() ==> buffer@[i] & 0x80 != 0),
        r == Err::<(i32, usize), VarIntError>(VarIntError::TooManyBytes) ==> buffer@.len() >= 5
            && (forall|i: int| 0 <= i < 5 ==> buffer@[i] & 0x80 != 0),
{
    let mut result: u32 = 0;
    let limit: usize = if buffer.len() < 5 {
        buffer.len()
    } else {
        5
    };
    let mut i: usize = 0;
    while i < limit
        invariant
            limit == if buffer@.len() < 5 {
                buffer@.len() as int
            } else {
                5int
            },
            limit <= buffer@.len(),
            0 <= i <= limit,
            forall|j: int| 0 <= j < i ==> buffer@[j] & 0x80 != 0,
            result == varint_value_prefix(buffer@, i as int),
        decreases limit - i,
    {
        let byte = buffer[i];
        let group: u32 = (byte & 0x7f) as u32;
        let shift: u32 = 7 * (i as u32);
        result = result | (group << shift);
        i = i + 1;
        if byte & 0x80 == 0 {
            proof {
                lemma_varint_boundary_unique(buffer@, i as int);
                assert((result as i32) as u32 == result) by (bit_vector);
            }
            return Ok((result as i32, i));
        }
    }
    proof {
        assert forall|n: int| !is_varint_boundary(buffer@, n) by {
            if 1 <= n <= 5 && n <= buffer@.len() {
                assert(buffer@[n - 1] & 0x80 != 0);
            }
        }
    }
    if buffer.len() < 5 {
        Err(VarIntError::Incomplete)
    } else {
        Err(VarIntError::TooManyBytes)
    }
}

/// The canonical encoding is 1 to 5 bytes long, and shorter than `k + 1`
/// bytes whenever the value fits in `7 * k` bits.
pub proof fn lemma_varint_encoding_len(u: u32)
    ensures
        1 <= varint_encoding(u).len() <= 5,
        u < 0x80 ==> varint_encoding(u).len() == 1,
        u < 0x4000 ==> varint_encoding(u).len() <= 2,
        u < 0x200000 ==> varint_encoding(u).len() <= 3,
        u < 0x10000000 ==> varint_encoding(u).len() <= 4,
    decreases u,
{
    if u >= 0x80 {
        lemma_varint_encoding_len(u / 0x80);
    }
}

/// Writes the value as a protocol VarInt into a fixed 5-byte buffer,
/// returning the buffer and the number of bytes used.  Encoding always
/// succeeds and is canonical.
pub fn write_varint(value: i32) -> (r: Result<([u8; 5], usize), VarIntError>)
    ensures
        r is Ok,
        r matches Ok(p) ==> {
            &&& 1 <= p.1 <= 5
            &&& p.0@.subrange(0, p.1 as int) == varint_encoding(value as u32)
        },
{
    let mut buffer = [0u8; 5];
    let mut u: u32 = value as u32;
    let mut i: usize = 0;
    loop
        invariant_except_break
            i <= 5,
            buffer@.len() == 5,
            i == 0 ==> u == value as u32,
            i > 0 ==> u != 0 && buffer@.subrange(0, i as int) + varint_encoding(u)
                == varint_encoding(value as u32),
        ensures
            1 <= i <= 5,
            buffer@.subrange(0, i as int) == varint_encoding(value as u32),
        decreases u,
    {
        proof {
            lemma_varint_encoding_len(u);
            lemma_varint_encoding_len(value as u32);
            if i > 0 {
                assert(i + varint_encoding(u).len() == varint_encoding(value as u32).len());
            }
        }
        let mut temp: u8 = (u % 0x80) as u8;
        let next: u32 = u / 0x80;
        if next != 0 {
            temp = temp + 0x80;
        }
        let ghost old_buf = buffer@;
        let ghost old_u = u;
        let ghost old_i = i as int;
        buffer[i] = temp;
        i = i + 1;
        u = next;
        proof {
            assert(buffer@.subrange(0, i as int) =~= old_buf.subrange(0, old_i) + seq![temp]);
            if old_u < 0x80 {
                assert(varint_encoding(old_u) =~= seq![old_u as u8]);
                assert((old_u % 0x80) as u8 == old_u as u8);
                assert((old_buf.subrange(0, old_i) + varint_encoding(old_u)) =~= buffer@.subrange(
                    0,
                    i as int,
                ));
                if old_i == 0 {
                    assert(buffer@.subrange(0, i as int) =~= varint_encoding(value as u32));
                }
            } else {
                assert(varint_encoding(old_u) =~= seq![temp] + varint_encoding(old_u / 0x80));
                if old_i == 0 {
                    assert(buffer@.subrange(0, i as int) + varint_encoding(u) =~= varint_encoding(
                        value as u32,
                    ));
                } else {
                    assert((old_buf.subrange(0, old_i) + varint_encoding(old_u)) =~= (
                    buffer@.subrange(0, i as int) + varint_encoding(u)));
                }
            }
        }
        if u == 0 {
            break;
        }
    }
    Ok((buffer, i))
}

/// Prepending a continuation byte shifts the decoded groups up by 7 bits.
proof fn lemma_varint_value_prefix_cons(b: u8, s: Seq<u8>, n: int)
    requires
        0 <= n <= 4,
        n <= s.len(),
    ensures
        varint_value_prefix(seq![b] + s, n + 1) == ((b & 0x7f) as u32) | (varint_value_prefix(
            s,
            n,
        ) << 7u32),
    decreases n,
{
    let t = seq![b] + s;
    if n == 0 {
        assert(varint_value_prefix(t, 1) == varint_value_prefix(t, 0) | (((t[0] & 0x7f) as u32)
            << 0u32));
        let bb = (b & 0x7f) as u32;
        assert(0u32 | (bb << 0u32) == bb | (0u32 << 7u32)) by (bit_vector);
    } else {
        lemma_varint_value_prefix_cons(b, s, n - 1);
        assert(t[n] == s[n - 1]);
        let bb = (b & 0x7f) as u32;
        let x = varint_value_prefix(s, n - 1);
        let c = (s[n - 1] & 0x7f) as u32;
        let m = (7 * (n - 1)) as u32;
        assert(varint_value_prefix(t, n + 1) == varint_value_prefix(t, n) | (((t[n] & 0x7f) as u32)
            << ((7 * n) as u32)));
        assert((bb | (x << 7u32)) | (c << ((m + 7) as u32)) == bb | ((x | (c << m)) << 7u32))
            by (bit_vector)
            requires
                m <= 21,
        ;
        assert((7 * n) as u32 == (m + 7) as u32);
    }
}

/// Round trip: decoding the canonical encoding of any 32-bit pattern yields
/// that pattern, consuming the whole encoding.
pub proof fn lemma_varint_round_trip_u32(u: u32)
    ensures
        is_varint_boundary(varint_encoding(u), varint_encoding(u).len() as int),
        varint_value_prefix(varint_encoding(u), varint_encoding(u).len() as int) == u,
    decreases u,
{
    let e = varint_encoding(u);
    lemma_varint_encoding_len(u);
    if u < 0x80 {
        assert(e =~= seq![u as u8]);
        let b = u as u8;
        assert(b & 0x80 == 0 && ((b & 0x7f) as u32) == u && (0u32 | (((b & 0x7f) as u32)
            << 0u32)) == u) by (bit_vector)
            requires
                u < 0x80,
                b == u as u8,
        ;
        assert(varint_value_prefix(e, 0) == 0u32);
        assert(varint_value_prefix(e, 1) == varint_value_prefix(e, 0) | (((e[0] & 0x7f) as u32) << (
        (7 * 0) as u32)));
        assert(varint_value_prefix(e, 1) == u);
    } else {
        let b0 = (u % 0x80 + 0x80) as u8;
        let rest = varint_encoding(u / 0x80);
        lemma_varint_round_trip_u32(u / 0x80);
        lemma_varint_encoding_len(u / 0x80);
        assert(e =~= seq![b0] + rest);
        let n = rest.len() as int;
        lemma_varint_value_prefix_cons(b0, rest, n);
        assert(b0 & 0x80 != 0 && ((b0 & 0x7f) as u32) == u % 0x80) by (bit_vector)
            requires
                u >= 0x80,
                b0 == (u % 0x80 + 0x80) as u8,
        ;
        assert(((u % 0x80) as u32) | ((u / 0x80) << 7u32) == u) by (bit_vector);
        assert(varint_value_prefix(e, n + 1) == ((b0 & 0x7f) as u32) | (varint_value_prefix(
            rest,
            n,
        ) << 7u32));
        assert(varint_value_prefix(rest, n) == u / 0x80);
        assert(((b0 & 0x7f) as u32) == (u % 0x80) as u32) by (bit_vector)
            requires
                u >= 0x80,
                b0 == (u % 0x80 + 0x80) as u8,
        ;
        assert(varint_value_prefix(e, n + 1) == u);
        assert(e.len() as int == n + 1);
        assert forall|i: int| 0 <= i < n implies e[i] & 0x80 != 0 by {
            if i > 0 {
                assert(e[i] == rest[i - 1]);
                assert(rest[i - 1] & 0x80 != 0);
            }
        }
        assert(e[n] == rest[n - 1]);
        assert(is_varint_boundary(e, n + 1));
    }
}

/// VarInt round trip, stated for the signed value: for every `v`, decoding
/// `varint_encoding(v as u32)` succeeds, consumes the whole encoding (at most
/// 5 bytes), and yields `v` back.
pub proof fn lemma_varint_round_trip(v: i32)
    ensures
        ({
            let e = varint_encoding(v as u32);
            &&& 1 <= e.len() <= 5
            &&& varint_has_boundary(e)
            &&& varint_len(e) == e.len()
            &&& varint_i32(e) == v
        }),
{
    let u = v as u32;
    let e = varint_encoding(u);
    lemma_varint_encoding_len(u);
    lemma_varint_round_trip_u32(u);
    lemma_varint_boundary_unique(e, e.len() as int);
    assert((u as i32) as u32 == u) by (bit_vector);
    assert(((v as u32) as i32) == v) by (bit_vector);
}

/// Representation of a `VarInt` - the smallest possible number in the
/// protocol.
#[derive(Debug, Clone, Copy, Eq, Hash, PartialEq, Structural)]
pub struct VarInt(pub i32);

} // verus!
