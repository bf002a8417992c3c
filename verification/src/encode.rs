//! The `Encode` trait: values that can be written to the wire.
//!
//! Each implementation fixes, at the specification level, the exact byte
//! sequence a value takes on the wire (`wire_of`) and the side condition
//! under which it can be written at all (`encodable_of`); `encode` and
//! `size` are proved against those two functions.

use vstd::prelude::*;

use crate::codec::{be2, be4, be8, write_u16_be, write_u32_be, write_u64_be};

verus! {

broadcast use vstd::utf8::encode_utf8_valid_utf8;

/// A value with a fixed wire encoding.
///
/// `encode` appends exactly `wire_of(self.deep_view())` to the buffer, and
/// `size` returns that sequence's length, so a caller can presize buffers
/// and reason byte-exactly about what was written.
pub trait Encode: DeepView + Sized {
    /// The exact bytes this value takes on the wire.
    spec fn wire_of(v: Self::V) -> Seq<u8>;

    /// When the value can be written at all.  For the fixed-width types
    /// this is always true; a string must be short enough for its length
    /// field, and a sequence's total encoding must fit in memory.
    spec fn encodable_of(v: Self::V) -> bool;

    /// Appends the wire encoding of `self` to `buffer`.
    fn encode(&self, buffer: &mut Vec<u8>)
        requires
            Self::encodable_of(self.deep_view()),
        ensures
            final(buffer)@ == old(buffer)@ + Self::wire_of(self.deep_view()),
    ;

    /// The exact number of bytes `encode` appends.
    fn size(&self) -> (n: usize)
        requires
            Self::encodable_of(self.deep_view()),
        ensures
            n == Self::wire_of(self.deep_view()).len(),
    ;

    /// Decides `encodable_of` at run time, so that unverified callers
    /// can test it before calling `encode` or `size`.
    fn encodable(&self) -> (b: bool)
        ensures
            b == Self::encodable_of(self.deep_view()),
    ;
}

impl Encode for bool {
    open spec fn wire_of(v: bool) -> Seq<u8> {
        seq![if v { 1u8 } else { 0u8 }]
    }

    open spec fn encodable_of(v: bool) -> bool {
        true
    }

    fn encode(&self, buffer: &mut Vec<u8>) {
        buffer.push(if *self { 1u8 } else { 0u8 });
        assert(final(buffer)@ =~= old(buffer)@ + Self::wire_of(self.deep_view()));
    }

    fn size(&self) -> (n: usize) {
        1
    }

    fn encodable(&self) -> (b: bool) {
        true
    }
}

impl Encode for u8 {
    open spec fn wire_of(v: u8) -> Seq<u8> {
        seq![v]
    }

    open spec fn encodable_of(v: u8) -> bool {
        true
    }

    fn encode(&self, buffer: &mut Vec<u8>) {
        buffer.push(*self);
        assert(final(buffer)@ =~= old(buffer)@ + Self::wire_of(self.deep_view()));
    }

    fn size(&self) -> (n: usize) {
        1
    }

    fn encodable(&self) -> (b: bool) {
        true
    }
}

impl Encode for i8 {
    open spec fn wire_of(v: i8) -> Seq<u8> {
        seq![v as u8]
    }

    open spec fn encodable_of(v: i8) -> bool {
        true
    }

    fn encode(&self, buffer: &mut Vec<u8>) {
        buffer.push(*self as u8);
        assert(final(buffer)@ =~= old(buffer)@ + Self::wire_of(self.deep_view()));
    }

    fn size(&self) -> (n: usize) {
        1
    }

    fn encodable(&self) -> (b: bool) {
        true
    }
}

impl Encode for i16 {
    open spec fn wire_of(v: i16) -> Seq<u8> {
        be2(v as u16)
    }

    open spec fn encodable_of(v: i16) -> bool {
        true
    }

    fn encode(&self, buffer: &mut Vec<u8>) {
        write_u16_be(*self as u16, buffer);
    }

    fn size(&self) -> (n: usize) {
        2
    }

    fn encodable(&self) -> (b: bool) {
        true
    }
}

impl Encode for i32 {
    open spec fn wire_of(v: i32) -> Seq<u8> {
        be4(v as u32)
    }

    open spec fn encodable_of(v: i32) -> bool {
        true
    }

    fn encode(&self, buffer: &mut Vec<u8>) {
        write_u32_be(*self as u32, buffer);
    }

    fn size(&self) -> (n: usize) {
        4
    }

    fn encodable(&self) -> (b: bool) {
        true
    }
}

impl Encode for i64 {
    open spec fn wire_of(v: i64) -> Seq<u8> {
        be8(v as u64)
    }

    open spec fn encodable_of(v: i64) -> bool {
        true
    }

    fn encode(&self, buffer: &mut Vec<u8>) {
        write_u64_be(*self as u64, buffer);
    }

    fn size(&self) -> (n: usize) {
        8
    }

    fn encodable(&self) -> (b: bool) {
        true
    }
}

impl Encode for u64 {
    open spec fn wire_of(v: u64) -> Seq<u8> {
        be8(v)
    }

    open spec fn encodable_of(v: u64) -> bool {
        true
    }

    fn encode(&self, buffer: &mut Vec<u8>) {
        write_u64_be(*self, buffer);
    }

    fn size(&self) -> (n: usize) {
        8
    }

    fn encodable(&self) -> (b: bool) {
        true
    }
}

/// The IEEE-754 bit pattern of a 32-bit float.
///
/// Floating-point values stay outside the verified codec: a float
/// travels as its bit pattern, and the big-endian encoding of the bits
/// is byte-identical to the float's wire form.  The conversion
/// (`f32::to_bits` / `f32::from_bits`) happens at the boundary around
/// this crate.
#[derive(Clone, Copy, Debug, PartialEq, Eq, Structural)]
pub struct F32Bits(pub u32);

/// The IEEE-754 bit pattern of a 64-bit float; see [`F32Bits`].
#[derive(Clone, Copy, Debug, PartialEq, Eq, Structural)]
pub struct F64Bits(pub u64);

impl DeepView for F32Bits {
    type V = u32;

    open spec fn deep_view(&self) -> u32 {
        self.0
    }
}

impl DeepView for F64Bits {
    type V = u64;

    open spec fn deep_view(&self) -> u64 {
        self.0
    }
}

impl Encode for F32Bits {
    open spec fn wire_of(v: u32) -> Seq<u8> {
        be4(v)
    }

    open spec fn encodable_of(v: u32) -> bool {
        true
    }

    fn encode(&self, buffer: &mut Vec<u8>) {
        write_u32_be(self.0, buffer);
    }

    fn size(&self) -> (n: usize) {
        4
    }

    fn encodable(&self) -> (b: bool) {
        true
    }
}

impl Encode for F64Bits {
    open spec fn wire_of(v: u64) -> Seq<u8> {
        be8(v)
    }

    open spec fn encodable_of(v: u64) -> bool {
        true
    }

    fn encode(&self, buffer: &mut Vec<u8>) {
        write_u64_be(self.0, buffer);
    }

    fn size(&self) -> (n: usize) {
        8
    }

    fn encodable(&self) -> (b: bool) {
        true
    }
}

/// The concatenated wire encodings of a sequence of values.
///
/// A sequence carries no length of its own on the wire: its element count
/// lives in a sibling field of the enclosing message, so decoding one
/// needs the count from the caller (see `decode_seq`).
pub open spec fn seq_wire<T: Encode>(s: Seq<T::V>) -> Seq<u8>
    decreases s.len(),
{
    if s.len() == 0 {
        Seq::empty()
    } else {
        T::wire_of(s[0]) + seq_wire::<T>(s.drop_first())
    }
}

/// A sequence can be written when each element can and the whole
/// encoding fits in memory.
pub open spec fn seq_encodable<T: Encode>(s: Seq<T::V>) -> bool {
    (forall|i: int| 0 <= i < s.len() ==> T::encodable_of(#[trigger] s[i])) && seq_wire::<T>(
        s,
    ).len() <= usize::MAX
}

/// Appending one value to a sequence appends its wire bytes.
pub proof fn lemma_seq_wire_push<T: Encode>(s: Seq<T::V>, x: T::V)
    ensures
        seq_wire::<T>(s.push(x)) == seq_wire::<T>(s) + T::wire_of(x),
    decreases s.len(),
{
    if s.len() == 0 {
        assert(s.push(x)[0] == x);
        assert(s.push(x).drop_first() =~= s);
        assert(seq_wire::<T>(s) =~= Seq::<u8>::empty());
        assert(seq_wire::<T>(s.push(x)) == T::wire_of(x) + seq_wire::<T>(s));
        assert(seq_wire::<T>(s.push(x)) =~= seq_wire::<T>(s) + T::wire_of(x));
    } else {
        assert(s.push(x)[0] == s[0]);
        assert(s.push(x).drop_first() =~= s.drop_first().push(x));
        lemma_seq_wire_push::<T>(s.drop_first(), x);
        assert(seq_wire::<T>(s.push(x)) == T::wire_of(s[0]) + seq_wire::<T>(
            s.drop_first().push(x),
        ));
        assert(seq_wire::<T>(s.drop_first().push(x)) == seq_wire::<T>(s.drop_first())
            + T::wire_of(x));
        assert(seq_wire::<T>(s) == T::wire_of(s[0]) + seq_wire::<T>(s.drop_first()));
        assert(T::wire_of(s[0]) + (seq_wire::<T>(s.drop_first()) + T::wire_of(x)) =~= (
        T::wire_of(s[0]) + seq_wire::<T>(s.drop_first())) + T::wire_of(x));
    }
}

/// The wire bytes of a concatenation are the concatenated wire bytes.
pub proof fn lemma_seq_wire_concat<T: Encode>(a: Seq<T::V>, b: Seq<T::V>)
    ensures
        seq_wire::<T>(a + b) == seq_wire::<T>(a) + seq_wire::<T>(b),
    decreases a.len(),
{
    if a.len() == 0 {
        assert(a + b =~= b);
        assert(seq_wire::<T>(a + b) =~= seq_wire::<T>(a) + seq_wire::<T>(b));
    } else {
        assert((a + b)[0] == a[0]);
        assert((a + b).drop_first() =~= a.drop_first() + b);
        lemma_seq_wire_concat::<T>(a.drop_first(), b);
        assert(seq_wire::<T>(a + b) =~= seq_wire::<T>(a) + seq_wire::<T>(b));
    }
}

/// A prefix of a sequence takes no more wire bytes than the whole.
pub proof fn lemma_seq_wire_prefix<T: Encode>(s: Seq<T::V>, i: int)
    requires
        0 <= i <= s.len(),
    ensures
        seq_wire::<T>(s.take(i)).len() <= seq_wire::<T>(s).len(),
{
    lemma_seq_wire_concat::<T>(s.take(i), s.skip(i));
    assert(s.take(i) + s.skip(i) =~= s);
}

impl<T: Encode> Encode for Vec<T> {
    open spec fn wire_of(v: Seq<T::V>) -> Seq<u8> {
        seq_wire::<T>(v)
    }

    open spec fn encodable_of(v: Seq<T::V>) -> bool {
        seq_encodable::<T>(v)
    }

    fn encode(&self, buffer: &mut Vec<u8>) {
        let ghost orig = buffer@;
        let ghost dv = self.deep_view();
        let n = self.len();
        let mut i: usize = 0;
        while i < n
            invariant
                i <= n,
                n == self@.len(),
                dv == self.deep_view(),
                seq_encodable::<T>(dv),
                buffer@ == orig + seq_wire::<T>(dv.take(i as int)),
            decreases n - i,
        {
            proof {
                assert(T::encodable_of(dv[i as int]));
                assert(self[i as int].deep_view() == dv[i as int]);
            }
            self[i].encode(buffer);
            proof {
                assert(dv.take(i + 1 as int) =~= dv.take(i as int).push(dv[i as int]));
                lemma_seq_wire_push::<T>(dv.take(i as int), dv[i as int]);
                assert(buffer@ =~= orig + seq_wire::<T>(dv.take(i + 1 as int)));
            }
            i = i + 1;
        }
        proof {
            assert(dv.take(n as int) =~= dv);
        }
    }

    fn size(&self) -> (n: usize) {
        let ghost dv = self.deep_view();
        let count = self.len();
        let mut total: usize = 0;
        let mut i: usize = 0;
        while i < count
            invariant
                i <= count,
                count == self@.len(),
                dv == self.deep_view(),
                seq_encodable::<T>(dv),
                total == seq_wire::<T>(dv.take(i as int)).len(),
            decreases count - i,
        {
            proof {
                assert(T::encodable_of(dv[i as int]));
                assert(self[i as int].deep_view() == dv[i as int]);
                assert(dv.take(i + 1 as int) =~= dv.take(i as int).push(dv[i as int]));
                lemma_seq_wire_push::<T>(dv.take(i as int), dv[i as int]);
                lemma_seq_wire_prefix::<T>(dv, i + 1);
            }
            let s = self[i].size();
            total = total + s;
            i = i + 1;
        }
        proof {
            assert(dv.take(count as int) =~= dv);
        }
        total
    }

    fn encodable(&self) -> (b: bool) {
        let ghost dv = self.deep_view();
        let count = self.len();
        let mut total: usize = 0;
        let mut i: usize = 0;
        while i < count
            invariant
                i <= count,
                count == self@.len(),
                dv == self.deep_view(),
                forall|j: int| 0 <= j < i ==> T::encodable_of(#[trigger] dv[j]),
                total == seq_wire::<T>(dv.take(i as int)).len(),
            decreases count - i,
        {
            proof {
                assert(self[i as int].deep_view() == dv[i as int]);
            }
            if !self[i].encodable() {
                proof {
                    assert(!T::encodable_of(dv[i as int]));
                }
                return false;
            }
            let s = self[i].size();
            proof {
                assert(dv.take(i + 1 as int) =~= dv.take(i as int).push(dv[i as int]));
                lemma_seq_wire_push::<T>(dv.take(i as int), dv[i as int]);
            }
            total = match total.checked_add(s) {
                Some(t) => t,
                None => {
                    proof {
                        lemma_seq_wire_prefix::<T>(dv, i + 1);
                    }
                    return false;
                },
            };
            i = i + 1;
        }
        proof {
            assert(dv.take(count as int) =~= dv);
        }
        true
    }
}

/// The wire form of a string: an `int32` holding the UTF-8 byte length
/// plus one, the UTF-8 bytes, then a single 0x00 terminator.
pub open spec fn string_wire(s: Seq<char>) -> Seq<u8> {
    be4((vstd::utf8::encode_utf8(s).len() + 1) as u32) + vstd::utf8::encode_utf8(s) + seq![0u8]
}

/// A string fits on the wire when its length field fits in an `int32`.
pub open spec fn string_encodable(s: Seq<char>) -> bool {
    vstd::utf8::encode_utf8(s).len() + 1 <= i32::MAX as int
}

impl Encode for String {
    open spec fn wire_of(v: Seq<char>) -> Seq<u8> {
        string_wire(v)
    }

    open spec fn encodable_of(v: Seq<char>) -> bool {
        string_encodable(v)
    }

    fn encode(&self, buffer: &mut Vec<u8>) {
        let bytes: &[u8] = self.as_str().as_bytes();
        let n = bytes.len();
        write_u32_be((n as u32) + 1, buffer);
        buffer.extend_from_slice(bytes);
        buffer.push(0u8);
        assert(final(buffer)@ =~= old(buffer)@ + Self::wire_of(self.deep_view()));
    }

    fn size(&self) -> (n: usize) {
        let bytes: &[u8] = self.as_str().as_bytes();
        4 + bytes.len() + 1
    }

    fn encodable(&self) -> (b: bool) {
        let bytes: &[u8] = self.as_str().as_bytes();
        bytes.len() <= (i32::MAX - 1) as usize
    }
}

} // verus!
