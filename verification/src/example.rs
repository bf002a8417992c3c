//! A demonstration message type, of the shape the schema compiler
//! generates: a record with a timestamp, a fixed-length position, a
//! name and a flag.  Its fingerprint is computed from its [`Schema`],
//! and its wire form is the concatenation of its fields' encodings, so
//! this module shows how the codec, the fingerprint and the trait
//! machinery compose for a real message type.

use vstd::prelude::*;

use crate::encode::{
    seq_encodable, seq_wire, string_encodable, string_wire, Encode, F32Bits,
};
use crate::error::LcmError;
use crate::fingerprint::{
    fingerprint, spec_field_mix, spec_fields_hash, spec_fingerprint, spec_mix, spec_prim_tag,
    spec_ty_hash, Field, FieldType, PrimType, Schema, ARRAY_TAG,
};
use crate::message::{
    decode_seq, lemma_parse_seq_exact, lemma_parse_seq_wire, spec_parse_seq, Message,
};

verus! {

/// The number of elements in [`ExampleMessage::position`].
pub const POSITION_LEN: usize = 3;

/// The demonstration record itself.  `position` always holds exactly
/// [`POSITION_LEN`] elements when encoded: the length is fixed by the
/// schema and never travels on the wire.
#[derive(Debug)]
pub struct ExampleMessage {
    pub timestamp: i64,
    pub position: Vec<F32Bits>,
    pub name: String,
    pub enabled: bool,
}

/// The abstract view of an [`ExampleMessage`].
pub struct ExampleView {
    pub timestamp: i64,
    pub position: Seq<u32>,
    pub name: Seq<char>,
    pub enabled: bool,
}

impl DeepView for ExampleMessage {
    type V = ExampleView;

    open spec fn deep_view(&self) -> ExampleView {
        ExampleView {
            timestamp: self.timestamp,
            position: self.position.deep_view(),
            name: self.name@,
            enabled: self.enabled,
        }
    }
}

/// The wire form of the record: its fields' encodings, in field order,
/// with nothing between them.
pub open spec fn example_wire(v: ExampleView) -> Seq<u8> {
    <i64 as Encode>::wire_of(v.timestamp) + seq_wire::<F32Bits>(v.position) + string_wire(v.name)
        + <bool as Encode>::wire_of(v.enabled)
}

/// The record can be encoded when the position has its fixed length and
/// the name fits its length field.
pub open spec fn example_encodable(v: ExampleView) -> bool {
    v.position.len() == POSITION_LEN && string_encodable(v.name)
}

/// The fingerprint of the example schema, written as the specification
/// fold over its field names and kinds.
pub open spec fn example_spec_hash() -> u64 {
    spec_field_mix(
        spec_field_mix(
            spec_field_mix(
                spec_field_mix(0u64, "timestamp"@, spec_prim_tag(PrimType::I64)),
                "position"@,
                spec_mix(spec_mix(ARRAY_TAG, spec_prim_tag(PrimType::F32)), POSITION_LEN as u64),
            ),
            "name"@,
            spec_prim_tag(PrimType::Str),
        ),
        "enabled"@,
        spec_prim_tag(PrimType::Bool),
    )
}

/// A sequence of 32-bit patterns takes four bytes per element.
proof fn lemma_f32_seq_wire_len(s: Seq<u32>)
    ensures
        seq_wire::<F32Bits>(s).len() == 4 * s.len(),
    decreases s.len(),
{
    if s.len() > 0 {
        lemma_f32_seq_wire_len(s.drop_first());
    }
}

impl ExampleMessage {
    /// The schema this type corresponds to: the field names, their
    /// order and their kinds, from which the fingerprint is computed.
    pub fn schema() -> (s: Schema)
        ensures
            s.fields@.len() == 4,
            s.fields@[0].name@ == "timestamp"@,
            s.fields@[0].ty matches FieldType::Prim(PrimType::I64),
            s.fields@[1].name@ == "position"@,
            (s.fields@[1].ty matches FieldType::Fixed(el, n) && *el matches FieldType::Prim(
                PrimType::F32,
            ) && n == POSITION_LEN),
            s.fields@[2].name@ == "name"@,
            s.fields@[2].ty matches FieldType::Prim(PrimType::Str),
            s.fields@[3].name@ == "enabled"@,
            s.fields@[3].ty matches FieldType::Prim(PrimType::Bool),
    {
        let mut fields: Vec<Field> = Vec::new();
        fields.push(Field { name: "timestamp".to_owned(), ty: FieldType::Prim(PrimType::I64) });
        fields.push(
            Field {
                name: "position".to_owned(),
                ty: FieldType::Fixed(Box::new(FieldType::Prim(PrimType::F32)), POSITION_LEN),
            },
        );
        fields.push(Field { name: "name".to_owned(), ty: FieldType::Prim(PrimType::Str) });
        fields.push(Field { name: "enabled".to_owned(), ty: FieldType::Prim(PrimType::Bool) });
        Schema { fields }
    }
}

impl Encode for ExampleMessage {
    open spec fn wire_of(v: ExampleView) -> Seq<u8> {
        example_wire(v)
    }

    open spec fn encodable_of(v: ExampleView) -> bool {
        example_encodable(v)
    }

    fn encode(&self, buffer: &mut Vec<u8>) {
        proof {
            lemma_f32_seq_wire_len(self.position.deep_view());
            assert(seq_encodable::<F32Bits>(self.position.deep_view()));
        }
        self.timestamp.encode(buffer);
        self.position.encode(buffer);
        self.name.encode(buffer);
        self.enabled.encode(buffer);
        assert(final(buffer)@ =~= old(buffer)@ + example_wire(self.deep_view()));
    }

    fn size(&self) -> (n: usize) {
        proof {
            lemma_f32_seq_wire_len(self.position.deep_view());
            assert(seq_encodable::<F32Bits>(self.position.deep_view()));
        }
        let a = self.timestamp.size();
        let b = self.position.size();
        let c = self.name.size();
        let d = self.enabled.size();
        a + b + c + d
    }

    fn encodable(&self) -> (b: bool) {
        self.position.len() == POSITION_LEN && self.name.encodable()
    }
}

impl Message for ExampleMessage {
    open spec fn spec_hash() -> u64 {
        example_spec_hash()
    }

    open spec fn spec_parse(b: Seq<u8>, pos: int) -> Result<(ExampleView, int), LcmError> {
        match <i64 as Message>::spec_parse(b, pos) {
            Err(e) => Err(e),
            Ok(t) => match spec_parse_seq::<F32Bits>(b, t.1, POSITION_LEN as int) {
                Err(e) => Err(e),
                Ok(p) => match <String as Message>::spec_parse(b, p.1) {
                    Err(e) => Err(e),
                    Ok(nm) => match <bool as Message>::spec_parse(b, nm.1) {
                        Err(e) => Err(e),
                        Ok(en) => Ok(
                            (
                                ExampleView {
                                    timestamp: t.0,
                                    position: p.0,
                                    name: nm.0,
                                    enabled: en.0,
                                },
                                en.1,
                            ),
                        ),
                    },
                },
            },
        }
    }

    proof fn lemma_parse_wire(v: ExampleView, b: Seq<u8>, pos: int) {
        let w1 = <i64 as Encode>::wire_of(v.timestamp);
        let w2 = seq_wire::<F32Bits>(v.position);
        let w3 = string_wire(v.name);
        let w4 = <bool as Encode>::wire_of(v.enabled);
        let w = example_wire(v);
        lemma_f32_seq_wire_len(v.position);
        assert(w.len() == 8 + w2.len() + w3.len() + 1);
        let sub = b.subrange(pos, pos + w.len() as int);
        assert forall|j: int| 0 <= j < w.len() implies b[pos + j] == w[j] by {
            assert(sub[j] == b[pos + j]);
        }
        assert(b.subrange(pos, pos + 8) =~= w1);
        <i64 as Message>::lemma_parse_wire(v.timestamp, b, pos);
        let p1 = pos + 8;
        assert forall|i: int| 0 <= i < w2.len() implies b[p1 + i] == w2[i] by {
            assert(w[8 + i] == w2[i]);
        }
        assert(b.subrange(p1, p1 + w2.len() as int) =~= w2);
        lemma_parse_seq_wire::<F32Bits>(v.position, b, p1);
        let p2 = p1 + w2.len() as int;
        assert forall|i: int| 0 <= i < w3.len() implies b[p2 + i] == w3[i] by {
            assert(w[8 + w2.len() + i] == w3[i]);
        }
        assert(b.subrange(p2, p2 + w3.len() as int) =~= w3);
        <String as Message>::lemma_parse_wire(v.name, b, p2);
        let p3 = p2 + w3.len() as int;
        assert forall|i: int| 0 <= i < 1 implies b[p3 + i] == w4[i] by {
            assert(w[8 + w2.len() + w3.len() + i] == w4[i]);
        }
        assert(b.subrange(p3, p3 + 1) =~= w4);
        <bool as Message>::lemma_parse_wire(v.enabled, b, p3);
        assert(Self::spec_parse(b, pos) == Ok::<(ExampleView, int), LcmError>(
            (v, pos + w.len() as int),
        ));
    }

    #[verifier::rlimit(60)]
    proof fn lemma_parse_exact(b: Seq<u8>, pos: int) {
        if Self::spec_parse(b, pos) is Ok {
            <i64 as Message>::lemma_parse_exact(b, pos);
            let t = <i64 as Message>::spec_parse(b, pos)->Ok_0;
            lemma_parse_seq_exact::<F32Bits>(b, t.1, POSITION_LEN as int);
            let p = spec_parse_seq::<F32Bits>(b, t.1, POSITION_LEN as int)->Ok_0;
            <String as Message>::lemma_parse_exact(b, p.1);
            let nm = <String as Message>::spec_parse(b, p.1)->Ok_0;
            <bool as Message>::lemma_parse_exact(b, nm.1);
            let en = <bool as Message>::spec_parse(b, nm.1)->Ok_0;
            let v = ExampleView { timestamp: t.0, position: p.0, name: nm.0, enabled: en.0 };
            let w = example_wire(v);
            assert forall|j: int| 0 <= j < w.len() implies w[j] == b[pos + j] by {
                let w1 = <i64 as Encode>::wire_of(t.0);
                let w2 = seq_wire::<F32Bits>(p.0);
                let w3 = string_wire(nm.0);
                if j < 8 {
                    assert(w[j] == w1[j]);
                    assert(b.subrange(pos, t.1)[j] == b[pos + j]);
                } else if j < 8 + w2.len() {
                    assert(w[j] == w2[j - 8]);
                    assert(b.subrange(t.1, p.1)[j - 8] == b[pos + j]);
                } else if j < 8 + w2.len() + w3.len() {
                    assert(w[j] == w3[j - 8 - w2.len()]);
                    assert(b.subrange(p.1, nm.1)[j - 8 - w2.len()] == b[pos + j]);
                } else {
                    assert(w[j] == <bool as Encode>::wire_of(en.0)[j - 8 - w2.len() - w3.len()]);
                    assert(b.subrange(nm.1, en.1)[j - 8 - w2.len() - w3.len()] == b[pos + j]);
                }
            }
            assert(b.subrange(pos, en.1) =~= w);
        }
    }

    /// The fingerprint, computed from the schema's structure as the
    /// fingerprint of every implementation of this schema must be.
    fn hash() -> (h: u64) {
        let s = Self::schema();
        let h = fingerprint(&s);
        proof {
            reveal_with_fuel(spec_fields_hash, 5);
            reveal_with_fuel(spec_ty_hash, 3);
            assert(spec_fingerprint(s) == example_spec_hash());
        }
        h
    }

    fn decode(buffer: &[u8], pos: &mut usize) -> (r: Result<Self, LcmError>) {
        let mut cur = *pos;
        let timestamp = match <i64 as Message>::decode(buffer, &mut cur) {
            Ok(v) => v,
            Err(e) => {
                return Err(e);
            },
        };
        let position = match decode_seq::<F32Bits>(buffer, &mut cur, POSITION_LEN) {
            Ok(v) => v,
            Err(e) => {
                return Err(e);
            },
        };
        let name = match <String as Message>::decode(buffer, &mut cur) {
            Ok(v) => v,
            Err(e) => {
                return Err(e);
            },
        };
        let enabled = match <bool as Message>::decode(buffer, &mut cur) {
            Ok(v) => v,
            Err(e) => {
                return Err(e);
            },
        };
        *pos = cur;
        Ok(ExampleMessage { timestamp, position, name, enabled })
    }
}

} // verus!
