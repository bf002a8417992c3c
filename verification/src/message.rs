//! The `Message` trait: values that travel as whole messages.
//!
//! A message can be encoded with its 64-bit type fingerprint prefixed
//! (`encode_with_hash`) and decoded back with the prefix checked first
//! (`decode_with_hash`).  Decoding is specified by a per-type
//! specification parser `spec_parse`; two proof obligations tie the
//! parser to the encoder:
//!
//! * `lemma_parse_wire` — parsing a buffer that carries a value's wire
//!   bytes yields exactly that value and consumes exactly those bytes
//!   (the round-trip law);
//! * `lemma_parse_exact` — whatever a successful parse returns is an
//!   encodable value whose wire bytes are exactly the bytes consumed.

use vstd::prelude::*;

use crate::codec::{
    be4, be8, lemma_be2_exact, lemma_be2_round, lemma_be4_exact, lemma_be4_round,
    lemma_be8_exact, lemma_be8_round, read_u16_be, read_u32_be, read_u64_be, read_u8,
    u16_of_be, u32_of_be, u64_of_be, write_u64_be,
};
use crate::encode::{seq_wire, string_wire, Encode, F32Bits, F64Bits};
use crate::error::LcmError;
use vstd::slice::slice_subrange;
use vstd::string::StringSliceAdditionalSpecFns;
use vstd::utf8::{decode_utf8, encode_utf8, valid_utf8};

verus! {

broadcast use vstd::utf8::encode_utf8_valid_utf8, vstd::utf8::encode_utf8_decode_utf8,
    vstd::utf8::decode_utf8_encode_utf8;

/// A message type with a fingerprint and a specified decoder.
///
/// Generated record types implement this trait next to the primitive
/// implementations below; `encode_with_hash` and `decode_with_hash` come
/// for free and fix the `[8-byte big-endian fingerprint][payload]` wire
/// format.
pub trait Message: Encode {
    /// The fingerprint constant of this type.
    spec fn spec_hash() -> u64;

    /// The specification-level parser: either the parsed value (as its
    /// abstract view) with the cursor position after it, or the exact
    /// error decoding at `pos` must produce.
    spec fn spec_parse(b: Seq<u8>, pos: int) -> Result<(Self::V, int), LcmError>;

    /// Round trip: a buffer that carries `wire_of(v)` at `pos` parses to
    /// exactly `v`, consuming exactly those bytes.
    proof fn lemma_parse_wire(v: Self::V, b: Seq<u8>, pos: int)
        requires
            Self::encodable_of(v),
            0 <= pos,
            pos + Self::wire_of(v).len() <= b.len(),
            b.subrange(pos, pos + Self::wire_of(v).len() as int) == Self::wire_of(v),
        ensures
            Self::spec_parse(b, pos) == Ok::<(Self::V, int), LcmError>(
                (v, pos + Self::wire_of(v).len() as int),
            ),
    ;

    /// Exactness: a successful parse yields an encodable value whose wire
    /// bytes are exactly the bytes consumed.
    proof fn lemma_parse_exact(b: Seq<u8>, pos: int)
        requires
            0 <= pos <= b.len(),
        ensures
            Self::spec_parse(b, pos) matches Ok(p) ==> {
                &&& Self::encodable_of(p.0)
                &&& pos <= p.1 <= b.len()
                &&& b.subrange(pos, p.1) == Self::wire_of(p.0)
            },
    ;

    /// The fingerprint of this message type.
    fn hash() -> (h: u64)
        ensures
            h == Self::spec_hash(),
    ;

    /// Decodes one value at the cursor.  On success the cursor stands
    /// just past the consumed bytes; on failure it is unchanged.
    fn decode(buffer: &[u8], pos: &mut usize) -> (r: Result<Self, LcmError>)
        requires
            *old(pos) <= buffer@.len(),
        ensures
            r matches Ok(v) ==> Self::spec_parse(buffer@, *old(pos) as int) == Ok::<
                (Self::V, int),
                LcmError,
            >((v.deep_view(), *final(pos) as int)) && *old(pos) <= *final(pos) <= buffer@.len(),
            r matches Err(e) ==> Self::spec_parse(buffer@, *old(pos) as int) == Err::<
                (Self::V, int),
                LcmError,
            >(e) && *final(pos) == *old(pos),
    ;

    /// Encodes `self` with the 8-byte big-endian fingerprint first.
    fn encode_with_hash(&self) -> (r: Vec<u8>)
        requires
            Self::encodable_of(self.deep_view()),
        ensures
            r@ == be8(Self::spec_hash()) + Self::wire_of(self.deep_view()),
    {
        let size = self.size();
        let mut buffer: Vec<u8> = match size.checked_add(8) {
            Some(capacity) => Vec::with_capacity(capacity),
            None => Vec::new(),
        };
        let h = Self::hash();
        write_u64_be(h, &mut buffer);
        self.encode(&mut buffer);
        assert(buffer@ =~= be8(Self::spec_hash()) + Self::wire_of(self.deep_view()));
        buffer
    }

    /// Decodes a value whose buffer starts with the fingerprint.
    ///
    /// The fingerprint is compared before anything after it is looked at:
    /// on a mismatch the payload is never interpreted, so bytes of a
    /// different type can never be misread as this one.
    fn decode_with_hash(buffer: &[u8]) -> (r: Result<Self, LcmError>)
        ensures
            buffer@.len() < 8 ==> r == Err::<Self, LcmError>(LcmError::Truncated),
            buffer@.len() >= 8 && u64_of_be(buffer@.subrange(0, 8)) != Self::spec_hash()
                ==> r == Err::<Self, LcmError>(LcmError::HashMismatch),
            buffer@.len() >= 8 && u64_of_be(buffer@.subrange(0, 8)) == Self::spec_hash() ==> ({
                &&& (r matches Ok(v) ==> Self::spec_parse(buffer@, 8) matches Ok(p) && p.0
                    == v.deep_view())
                &&& (r matches Err(e) ==> Self::spec_parse(buffer@, 8) == Err::<
                    (Self::V, int),
                    LcmError,
                >(e))
            }),
    {
        let mut pos: usize = 0;
        let h = match read_u64_be(buffer, &mut pos) {
            Ok(h) => h,
            Err(e) => {
                return Err(e);
            },
        };
        if h != Self::hash() {
            return Err(LcmError::HashMismatch);
        }
        Self::decode(buffer, &mut pos)
    }
}

/// Round trip through the fingerprint framing: the buffer that
/// `encode_with_hash` produces for `v` carries this type's fingerprint
/// in its first eight bytes, and parsing the rest yields exactly `v`'s
/// view, consuming the whole buffer — so `decode_with_hash` on that
/// buffer returns a value equal to `v`.
pub proof fn lemma_message_round_trip<M: Message>(v: M::V, b: Seq<u8>)
    requires
        M::encodable_of(v),
        b == be8(M::spec_hash()) + M::wire_of(v),
    ensures
        b.len() >= 8,
        u64_of_be(b.subrange(0, 8)) == M::spec_hash(),
        M::spec_parse(b, 8) == Ok::<(M::V, int), LcmError>((v, b.len() as int)),
{
    lemma_be8_round(M::spec_hash());
    assert(b.subrange(0, 8) =~= be8(M::spec_hash()));
    assert(b.subrange(8, b.len() as int) =~= M::wire_of(v));
    M::lemma_parse_wire(v, b, 8);
}

impl Message for bool {
    open spec fn spec_hash() -> u64 {
        0u64
    }

    open spec fn spec_parse(b: Seq<u8>, pos: int) -> Result<(bool, int), LcmError> {
        if pos + 1 <= b.len() {
            if b[pos] == 0 {
                Ok((false, pos + 1))
            } else if b[pos] == 1 {
                Ok((true, pos + 1))
            } else {
                Err(LcmError::InvalidEncoding)
            }
        } else {
            Err(LcmError::Truncated)
        }
    }

    proof fn lemma_parse_wire(v: bool, b: Seq<u8>, pos: int) {
        assert(b[pos] == Self::wire_of(v)[0]);
    }

    proof fn lemma_parse_exact(b: Seq<u8>, pos: int) {
        if Self::spec_parse(b, pos) is Ok {
            let p = Self::spec_parse(b, pos)->Ok_0;
            assert(b.subrange(pos, p.1) =~= Self::wire_of(p.0));
        }
    }

    fn hash() -> (h: u64) {
        0
    }

    fn decode(buffer: &[u8], pos: &mut usize) -> (r: Result<Self, LcmError>) {
        if buffer.len() - *pos >= 1 {
            let tag = buffer[*pos];
            if tag == 0 {
                *pos = *pos + 1;
                Ok(false)
            } else if tag == 1 {
                *pos = *pos + 1;
                Ok(true)
            } else {
                Err(LcmError::InvalidEncoding)
            }
        } else {
            Err(LcmError::Truncated)
        }
    }
}

impl Message for u8 {
    open spec fn spec_hash() -> u64 {
        1u64 << 0
    }

    open spec fn spec_parse(b: Seq<u8>, pos: int) -> Result<(u8, int), LcmError> {
        if pos + 1 <= b.len() {
            Ok((b[pos], pos + 1))
        } else {
            Err(LcmError::Truncated)
        }
    }

    proof fn lemma_parse_wire(v: u8, b: Seq<u8>, pos: int) {
        assert(b[pos] == Self::wire_of(v)[0]);
    }

    proof fn lemma_parse_exact(b: Seq<u8>, pos: int) {
        if Self::spec_parse(b, pos) is Ok {
            let p = Self::spec_parse(b, pos)->Ok_0;
            assert(b.subrange(pos, p.1) =~= Self::wire_of(p.0));
        }
    }

    fn hash() -> (h: u64) {
        1u64 << 0
    }

    fn decode(buffer: &[u8], pos: &mut usize) -> (r: Result<Self, LcmError>) {
        read_u8(buffer, pos)
    }
}

impl Message for i8 {
    open spec fn spec_hash() -> u64 {
        1u64 << 1
    }

    open spec fn spec_parse(b: Seq<u8>, pos: int) -> Result<(i8, int), LcmError> {
        if pos + 1 <= b.len() {
            Ok((b[pos] as i8, pos + 1))
        } else {
            Err(LcmError::Truncated)
        }
    }

    proof fn lemma_parse_wire(v: i8, b: Seq<u8>, pos: int) {
        assert(b[pos] == Self::wire_of(v)[0]);
        assert((v as u8) as i8 == v) by (bit_vector);
    }

    proof fn lemma_parse_exact(b: Seq<u8>, pos: int) {
        if Self::spec_parse(b, pos) is Ok {
            let p = Self::spec_parse(b, pos)->Ok_0;
            let x = b[pos];
            assert((x as i8) as u8 == x) by (bit_vector);
            assert(b.subrange(pos, p.1) =~= Self::wire_of(p.0));
        }
    }

    fn hash() -> (h: u64) {
        1u64 << 1
    }

    fn decode(buffer: &[u8], pos: &mut usize) -> (r: Result<Self, LcmError>) {
        match read_u8(buffer, pos) {
            Ok(x) => Ok(x as i8),
            Err(e) => Err(e),
        }
    }
}

impl Message for i16 {
    open spec fn spec_hash() -> u64 {
        1u64 << 2
    }

    open spec fn spec_parse(b: Seq<u8>, pos: int) -> Result<(i16, int), LcmError> {
        if pos + 2 <= b.len() {
            Ok((u16_of_be(b.subrange(pos, pos + 2)) as i16, pos + 2))
        } else {
            Err(LcmError::Truncated)
        }
    }

    proof fn lemma_parse_wire(v: i16, b: Seq<u8>, pos: int) {
        lemma_be2_round(v as u16);
        assert(b.subrange(pos, pos + 2) == Self::wire_of(v));
        assert((v as u16) as i16 == v) by (bit_vector);
    }

    proof fn lemma_parse_exact(b: Seq<u8>, pos: int) {
        if Self::spec_parse(b, pos) is Ok {
            lemma_be2_exact(b.subrange(pos, pos + 2));
            let x = u16_of_be(b.subrange(pos, pos + 2));
            assert((x as i16) as u16 == x) by (bit_vector);
        }
    }

    fn hash() -> (h: u64) {
        1u64 << 2
    }

    fn decode(buffer: &[u8], pos: &mut usize) -> (r: Result<Self, LcmError>) {
        match read_u16_be(buffer, pos) {
            Ok(x) => Ok(x as i16),
            Err(e) => Err(e),
        }
    }
}

impl Message for i32 {
    open spec fn spec_hash() -> u64 {
        1u64 << 3
    }

    open spec fn spec_parse(b: Seq<u8>, pos: int) -> Result<(i32, int), LcmError> {
        if pos + 4 <= b.len() {
            Ok((u32_of_be(b.subrange(pos, pos + 4)) as i32, pos + 4))
        } else {
            Err(LcmError::Truncated)
        }
    }

    proof fn lemma_parse_wire(v: i32, b: Seq<u8>, pos: int) {
        lemma_be4_round(v as u32);
        assert(b.subrange(pos, pos + 4) == Self::wire_of(v));
        assert((v as u32) as i32 == v) by (bit_vector);
    }

    proof fn lemma_parse_exact(b: Seq<u8>, pos: int) {
        if Self::spec_parse(b, pos) is Ok {
            lemma_be4_exact(b.subrange(pos, pos + 4));
            let x = u32_of_be(b.subrange(pos, pos + 4));
            assert((x as i32) as u32 == x) by (bit_vector);
        }
    }

    fn hash() -> (h: u64) {
        1u64 << 3
    }

    fn decode(buffer: &[u8], pos: &mut usize) -> (r: Result<Self, LcmError>) {
        match read_u32_be(buffer, pos) {
            Ok(x) => Ok(x as i32),
            Err(e) => Err(e),
        }
    }
}

impl Message for u64 {
    open spec fn spec_hash() -> u64 {
        1u64 << 4
    }

    open spec fn spec_parse(b: Seq<u8>, pos: int) -> Result<(u64, int), LcmError> {
        if pos + 8 <= b.len() {
            Ok((u64_of_be(b.subrange(pos, pos + 8)), pos + 8))
        } else {
            Err(LcmError::Truncated)
        }
    }

    proof fn lemma_parse_wire(v: u64, b: Seq<u8>, pos: int) {
        lemma_be8_round(v);
        assert(b.subrange(pos, pos + 8) == Self::wire_of(v));
    }

    proof fn lemma_parse_exact(b: Seq<u8>, pos: int) {
        if Self::spec_parse(b, pos) is Ok {
            lemma_be8_exact(b.subrange(pos, pos + 8));
        }
    }

    fn hash() -> (h: u64) {
        1u64 << 4
    }

    fn decode(buffer: &[u8], pos: &mut usize) -> (r: Result<Self, LcmError>) {
        read_u64_be(buffer, pos)
    }
}

impl Message for i64 {
    open spec fn spec_hash() -> u64 {
        1u64 << 5
    }

    open spec fn spec_parse(b: Seq<u8>, pos: int) -> Result<(i64, int), LcmError> {
        if pos + 8 <= b.len() {
            Ok((u64_of_be(b.subrange(pos, pos + 8)) as i64, pos + 8))
        } else {
            Err(LcmError::Truncated)
        }
    }

    proof fn lemma_parse_wire(v: i64, b: Seq<u8>, pos: int) {
        lemma_be8_round(v as u64);
        assert(b.subrange(pos, pos + 8) == Self::wire_of(v));
        assert((v as u64) as i64 == v) by (bit_vector);
    }

    proof fn lemma_parse_exact(b: Seq<u8>, pos: int) {
        if Self::spec_parse(b, pos) is Ok {
            lemma_be8_exact(b.subrange(pos, pos + 8));
            let x = u64_of_be(b.subrange(pos, pos + 8));
            assert((x as i64) as u64 == x) by (bit_vector);
        }
    }

    fn hash() -> (h: u64) {
        1u64 << 5
    }

    fn decode(buffer: &[u8], pos: &mut usize) -> (r: Result<Self, LcmError>) {
        match read_u64_be(buffer, pos) {
            Ok(x) => Ok(x as i64),
            Err(e) => Err(e),
        }
    }
}

impl Message for F32Bits {
    open spec fn spec_hash() -> u64 {
        1u64 << 6
    }

    open spec fn spec_parse(b: Seq<u8>, pos: int) -> Result<(u32, int), LcmError> {
        if pos + 4 <= b.len() {
            Ok((u32_of_be(b.subrange(pos, pos + 4)), pos + 4))
        } else {
            Err(LcmError::Truncated)
        }
    }

    proof fn lemma_parse_wire(v: u32, b: Seq<u8>, pos: int) {
        lemma_be4_round(v);
        assert(b.subrange(pos, pos + 4) == Self::wire_of(v));
    }

    proof fn lemma_parse_exact(b: Seq<u8>, pos: int) {
        if Self::spec_parse(b, pos) is Ok {
            lemma_be4_exact(b.subrange(pos, pos + 4));
        }
    }

    fn hash() -> (h: u64) {
        1u64 << 6
    }

    fn decode(buffer: &[u8], pos: &mut usize) -> (r: Result<Self, LcmError>) {
        match read_u32_be(buffer, pos) {
            Ok(x) => Ok(F32Bits(x)),
            Err(e) => Err(e),
        }
    }
}

impl Message for F64Bits {
    open spec fn spec_hash() -> u64 {
        1u64 << 7
    }

    open spec fn spec_parse(b: Seq<u8>, pos: int) -> Result<(u64, int), LcmError> {
        if pos + 8 <= b.len() {
            Ok((u64_of_be(b.subrange(pos, pos + 8)), pos + 8))
        } else {
            Err(LcmError::Truncated)
        }
    }

    proof fn lemma_parse_wire(v: u64, b: Seq<u8>, pos: int) {
        lemma_be8_round(v);
        assert(b.subrange(pos, pos + 8) == Self::wire_of(v));
    }

    proof fn lemma_parse_exact(b: Seq<u8>, pos: int) {
        if Self::spec_parse(b, pos) is Ok {
            lemma_be8_exact(b.subrange(pos, pos + 8));
        }
    }

    fn hash() -> (h: u64) {
        1u64 << 7
    }

    fn decode(buffer: &[u8], pos: &mut usize) -> (r: Result<Self, LcmError>) {
        match read_u64_be(buffer, pos) {
            Ok(x) => Ok(F64Bits(x)),
            Err(e) => Err(e),
        }
    }
}

/// The specification parser for `n` values of `M` in a row.
pub open spec fn spec_parse_seq<M: Message>(b: Seq<u8>, pos: int, n: int) -> Result<
    (Seq<M::V>, int),
    LcmError,
>
    decreases n,
{
    if n <= 0 {
        Ok((Seq::empty(), pos))
    } else {
        match M::spec_parse(b, pos) {
            Ok(p) => match spec_parse_seq::<M>(b, p.1, n - 1) {
                Ok(q) => Ok((seq![p.0] + q.0, q.1)),
                Err(e) => Err(e),
            },
            Err(e) => Err(e),
        }
    }
}

/// Round trip for sequences: a buffer that carries `seq_wire(vs)` parses
/// back to exactly `vs` when the element count is supplied.
pub proof fn lemma_parse_seq_wire<M: Message>(vs: Seq<M::V>, b: Seq<u8>, pos: int)
    requires
        forall|i: int| 0 <= i < vs.len() ==> M::encodable_of(#[trigger] vs[i]),
        0 <= pos,
        pos + seq_wire::<M>(vs).len() <= b.len(),
        b.subrange(pos, pos + seq_wire::<M>(vs).len() as int) == seq_wire::<M>(vs),
    ensures
        spec_parse_seq::<M>(b, pos, vs.len() as int) == Ok::<(Seq<M::V>, int), LcmError>(
            (vs, pos + seq_wire::<M>(vs).len() as int),
        ),
    decreases vs.len(),
{
    let w = seq_wire::<M>(vs);
    let sub = b.subrange(pos, pos + w.len() as int);
    assert forall|j: int| 0 <= j < w.len() implies b[pos + j] == w[j] by {
        assert(sub[j] == b[pos + j]);
    }
    if vs.len() == 0 {
        assert(vs =~= Seq::<M::V>::empty());
        assert(seq_wire::<M>(vs) =~= Seq::<u8>::empty());
    } else {
        let w0 = M::wire_of(vs[0]);
        let rest = seq_wire::<M>(vs.drop_first());
        assert(w == w0 + rest);
        assert(b.subrange(pos, pos + w0.len() as int) =~= w0);
        M::lemma_parse_wire(vs[0], b, pos);
        let mid = pos + w0.len() as int;
        assert(b.subrange(mid, mid + rest.len() as int) =~= rest) by {
            assert forall|j: int| 0 <= j < rest.len() implies b[mid + j] == rest[j] by {
                assert(b[pos + (w0.len() + j)] == w[w0.len() + j]);
                assert(w[w0.len() + j] == rest[j]);
            }
        }
        lemma_parse_seq_wire::<M>(vs.drop_first(), b, mid);
        assert(seq![vs[0]] + vs.drop_first() =~= vs);
    }
}

/// Exactness for sequences: a successful parse of `n` values yields `n`
/// encodable values whose concatenated wire bytes are exactly the bytes
/// consumed.
pub proof fn lemma_parse_seq_exact<M: Message>(b: Seq<u8>, pos: int, n: int)
    requires
        0 <= pos <= b.len(),
        0 <= n,
    ensures
        spec_parse_seq::<M>(b, pos, n) matches Ok(q) ==> {
            &&& q.0.len() == n
            &&& forall|i: int| 0 <= i < n ==> M::encodable_of(#[trigger] q.0[i])
            &&& pos <= q.1 <= b.len()
            &&& b.subrange(pos, q.1) == seq_wire::<M>(q.0)
        },
    decreases n,
{
    if n > 0 && spec_parse_seq::<M>(b, pos, n) is Ok {
        let q = spec_parse_seq::<M>(b, pos, n)->Ok_0;
        M::lemma_parse_exact(b, pos);
        let p = M::spec_parse(b, pos)->Ok_0;
        lemma_parse_seq_exact::<M>(b, p.1, n - 1);
        let rest = spec_parse_seq::<M>(b, p.1, n - 1)->Ok_0;
        assert(q.0 == seq![p.0] + rest.0);
        assert(q.0.drop_first() =~= rest.0);
        assert(q.0[0] == p.0);
        assert(seq_wire::<M>(q.0) == M::wire_of(p.0) + seq_wire::<M>(rest.0));
        let w0 = M::wire_of(p.0);
        assert(b.subrange(pos, q.1) =~= b.subrange(pos, p.1) + b.subrange(p.1, q.1));
    }
}

/// Decodes `n` values of `M` in a row at the cursor.
///
/// A sequence field of a message is decoded this way, with `n` taken from
/// the sibling count field that precedes it; a fixed-length array field
/// is decoded the same way with its compile-time length.  On failure the
/// cursor is unchanged.
pub fn decode_seq<M: Message>(buffer: &[u8], pos: &mut usize, n: usize) -> (r: Result<
    Vec<M>,
    LcmError,
>)
    requires
        *old(pos) <= buffer@.len(),
    ensures
        r matches Ok(v) ==> spec_parse_seq::<M>(buffer@, *old(pos) as int, n as int) == Ok::<
            (Seq<M::V>, int),
            LcmError,
        >((v.deep_view(), *final(pos) as int)) && v@.len() == n && *old(pos) <= *final(pos)
            <= buffer@.len(),
        r matches Err(e) ==> spec_parse_seq::<M>(buffer@, *old(pos) as int, n as int) == Err::<
            (Seq<M::V>, int),
            LcmError,
        >(e) && *final(pos) == *old(pos),
{
    let ghost pos0 = *pos as int;
    let ghost b = buffer@;
    let start = *pos;
    let mut acc: Vec<M> = Vec::new();
    let mut i: usize = 0;
    proof {
        assert(acc.deep_view() =~= Seq::<M::V>::empty());
        let r0 = spec_parse_seq::<M>(b, pos0, n as int);
        if r0 is Ok {
            assert(acc.deep_view() + r0->Ok_0.0 =~= r0->Ok_0.0);
        }
    }
    while i < n
        invariant
            i <= n,
            *pos <= buffer@.len(),
            start <= *pos,
            b == buffer@,
            pos0 == start as int,
            pos0 == *old(pos) as int,
            acc@.len() == i,
            spec_parse_seq::<M>(b, pos0, n as int) == (match spec_parse_seq::<M>(
                b,
                *pos as int,
                n - i,
            ) {
                Ok(q) => Ok::<(Seq<M::V>, int), LcmError>((acc.deep_view() + q.0, q.1)),
                Err(e) => Err::<(Seq<M::V>, int), LcmError>(e),
            }),
        decreases n - i,
    {
        let ghost cur = *pos as int;
        let ghost acc_old = acc.deep_view();
        match M::decode(buffer, pos) {
            Ok(v) => {
                acc.push(v);
                proof {
                    assert(acc.deep_view() =~= acc_old.push(v.deep_view()));
                    let rem = spec_parse_seq::<M>(b, *pos as int, n - i - 1);
                    if rem is Ok {
                        let q = rem->Ok_0;
                        assert(acc_old + (seq![v.deep_view()] + q.0) =~= acc_old.push(
                            v.deep_view(),
                        ) + q.0);
                    }
                }
                i = i + 1;
            },
            Err(e) => {
                proof {
                    assert(spec_parse_seq::<M>(b, cur, n - i) == Err::<
                        (Seq<M::V>, int),
                        LcmError,
                    >(e));
                }
                *pos = start;
                return Err(e);
            },
        }
    }
    proof {
        assert(acc.deep_view() + Seq::<M::V>::empty() =~= acc.deep_view());
    }
    Ok(acc)
}

/// Relies on `core::str::from_utf8`: it succeeds exactly on valid UTF-8,
/// and the returned slice is backed by the given bytes.
#[verifier::external_body]
fn str_from_utf8(bytes: &[u8]) -> (r: Option<&str>)
    ensures
        r is Some <==> valid_utf8(bytes@),
        r matches Some(s) ==> s.spec_bytes() == bytes@,
{
    core::str::from_utf8(bytes).ok()
}

impl Message for String {
    open spec fn spec_hash() -> u64 {
        1u64 << 8
    }

    open spec fn spec_parse(b: Seq<u8>, pos: int) -> Result<(Seq<char>, int), LcmError> {
        if pos + 4 > b.len() {
            Err(LcmError::Truncated)
        } else {
            let len_field = u32_of_be(b.subrange(pos, pos + 4));
            if len_field == 0 || len_field > i32::MAX as u32 {
                Err(LcmError::InvalidEncoding)
            } else {
                let n = len_field as int - 1;
                if pos + 5 + n > b.len() {
                    Err(LcmError::Truncated)
                } else if !valid_utf8(b.subrange(pos + 4, pos + 4 + n)) {
                    Err(LcmError::InvalidEncoding)
                } else if b[pos + 4 + n] != 0 {
                    Err(LcmError::InvalidEncoding)
                } else {
                    Ok((decode_utf8(b.subrange(pos + 4, pos + 4 + n)), pos + 5 + n))
                }
            }
        }
    }

    proof fn lemma_parse_wire(v: Seq<char>, b: Seq<u8>, pos: int) {
        let u = encode_utf8(v);
        let m = u.len() as int;
        let w = string_wire(v);
        assert(w.len() == 4 + m + 1);
        let sub = b.subrange(pos, pos + w.len() as int);
        assert forall|j: int| 0 <= j < w.len() implies b[pos + j] == w[j] by {
            assert(sub[j] == b[pos + j]);
        }
        assert(b.subrange(pos, pos + 4) =~= be4((m + 1) as u32));
        lemma_be4_round((m + 1) as u32);
        assert forall|i: int| 0 <= i < m implies b[pos + 4 + i] == u[i] by {
            assert(w[4 + i] == u[i]);
        }
        assert(b.subrange(pos + 4, pos + 4 + m) =~= u);
        vstd::utf8::encode_utf8_valid_utf8(v);
        vstd::utf8::encode_utf8_decode_utf8(v);
        assert(b[pos + 4 + m] == w[4 + m]);
        assert(w[4 + m] == 0);
    }

    proof fn lemma_parse_exact(b: Seq<u8>, pos: int) {
        if Self::spec_parse(b, pos) is Ok {
            let p = Self::spec_parse(b, pos)->Ok_0;
            let len_field = u32_of_be(b.subrange(pos, pos + 4));
            let n = len_field as int - 1;
            let content = b.subrange(pos + 4, pos + 4 + n);
            let c = decode_utf8(content);
            vstd::utf8::decode_utf8_encode_utf8(content);
            assert(encode_utf8(c) == content);
            lemma_be4_exact(b.subrange(pos, pos + 4));
            assert((n + 1) as u32 == len_field);
            let w = string_wire(c);
            assert(w.len() == 4 + n + 1);
            assert forall|j: int| 0 <= j < w.len() implies w[j] == b[pos + j] by {
                if j < 4 {
                    assert(w[j] == be4(len_field)[j]);
                    assert(be4(len_field)[j] == b.subrange(pos, pos + 4)[j]);
                } else if j < 4 + n {
                    assert(w[j] == content[j - 4]);
                    assert(content[j - 4] == b[pos + j]);
                } else {
                    assert(w[j] == 0);
                }
            }
            assert(b.subrange(pos, p.1) =~= string_wire(c));
        }
    }

    fn hash() -> (h: u64) {
        1u64 << 8
    }

    fn decode(buffer: &[u8], pos: &mut usize) -> (r: Result<Self, LcmError>) {
        let mut cur = *pos;
        let len_field = match read_u32_be(buffer, &mut cur) {
            Ok(x) => x,
            Err(e) => {
                return Err(e);
            },
        };
        if len_field == 0 || len_field > (i32::MAX as u32) {
            return Err(LcmError::InvalidEncoding);
        }
        let n = (len_field - 1) as usize;
        if buffer.len() - cur < n + 1 {
            return Err(LcmError::Truncated);
        }
        let content = slice_subrange(buffer, cur, cur + n);
        match str_from_utf8(content) {
            None => Err(LcmError::InvalidEncoding),
            Some(s) => {
                if buffer[cur + n] != 0 {
                    Err(LcmError::InvalidEncoding)
                } else {
                    *pos = cur + n + 1;
                    Ok(s.to_owned())
                }
            },
        }
    }
}

} // verus!
