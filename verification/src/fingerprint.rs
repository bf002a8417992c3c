//! Structural type fingerprints.
//!
//! Every message type is described by a [`Schema`]: an ordered list of
//! named fields, each a primitive, a string, a fixed-length array, or a
//! nested schema.  [`fingerprint`] folds the field names, their order,
//! per-kind constants and nested fingerprints into one 64-bit value.  The
//! executable function is proved equal to the specification fold, so the
//! fingerprint of a schema is a pure function of its structure: the same
//! schema gives the same fingerprint in every process, and the
//! fingerprint changes with the structure, not with addresses or
//! instances.  It is a compatibility check, not a cryptographic hash.

use vstd::prelude::*;

use vstd::utf8::encode_utf8;
use vstd::wrapping::u64_specs;

verus! {

/// The primitive kinds a field can have.
#[derive(Clone, Copy, Debug, PartialEq, Eq, Structural)]
pub enum PrimType {
    Bool,
    U8,
    I8,
    I16,
    I32,
    I64,
    U64,
    F32,
    F64,
    Str,
}

/// The type of one field: a primitive, a fixed-length array with its
/// compile-time length, or a nested message type.
#[derive(Debug)]
pub enum FieldType {
    Prim(PrimType),
    Fixed(Box<FieldType>, usize),
    Nested(Box<Schema>),
}

/// One named field of a message type.
#[derive(Debug)]
pub struct Field {
    pub name: String,
    pub ty: FieldType,
}

/// The structure of a message type: its fields, in order.
#[derive(Debug)]
pub struct Schema {
    pub fields: Vec<Field>,
}

/// Mixed into the fold for each fixed-length array type.
pub const ARRAY_TAG: u64 = 0x8f3d0a5b77c1e94d;

/// Mixed into the fold for each nested message type.
pub const NESTED_TAG: u64 = 0x51c60e2b9ad34a87;

/// One fold step: the running value is multiplied by 31 and the next
/// ingredient added, both wrapping.
pub open spec fn spec_mix(h: u64, x: u64) -> u64 {
    u64_specs::wrapping_add(u64_specs::wrapping_mul(h, 31), x)
}

/// The fixed constant each primitive kind contributes.
pub open spec fn spec_prim_tag(t: PrimType) -> u64 {
    match t {
        PrimType::Bool => 0u64,
        PrimType::U8 => 1u64 << 0,
        PrimType::I8 => 1u64 << 1,
        PrimType::I16 => 1u64 << 2,
        PrimType::I32 => 1u64 << 3,
        PrimType::U64 => 1u64 << 4,
        PrimType::I64 => 1u64 << 5,
        PrimType::F32 => 1u64 << 6,
        PrimType::F64 => 1u64 << 7,
        PrimType::Str => 1u64 << 8,
    }
}

/// The fold over the first `n` bytes of `b`.
pub open spec fn spec_bytes_hash(b: Seq<u8>, n: int) -> u64
    decreases n,
{
    if n <= 0 {
        0u64
    } else {
        spec_mix(spec_bytes_hash(b, n - 1), b[n - 1] as u64)
    }
}

/// The contribution of a field name: the fold over its UTF-8 bytes.
pub open spec fn spec_name_hash(name: Seq<char>) -> u64 {
    spec_bytes_hash(encode_utf8(name), encode_utf8(name).len() as int)
}

/// The contribution of one field: its name folded with its type.
pub open spec fn spec_field_mix(h: u64, name: Seq<char>, ty_hash: u64) -> u64 {
    spec_mix(spec_mix(h, spec_name_hash(name)), ty_hash)
}

/// The contribution of a field's type.
pub open spec fn spec_ty_hash(t: FieldType) -> u64
    decreases t, 0int,
{
    match t {
        FieldType::Prim(p) => spec_prim_tag(p),
        FieldType::Fixed(el, n) => spec_mix(spec_mix(ARRAY_TAG, spec_ty_hash(*el)), n as u64),
        FieldType::Nested(s) => spec_mix(
            NESTED_TAG,
            spec_fields_hash(s.fields, s.fields@.len() as int),
        ),
    }
}

/// The fold over the first `n` fields of `fields`.
pub open spec fn spec_fields_hash(fields: Vec<Field>, n: int) -> u64
    decreases fields, n,
{
    if n <= 0 || n > fields@.len() {
        0u64
    } else {
        spec_field_mix(
            spec_fields_hash(fields, n - 1),
            fields@[n - 1].name@,
            spec_ty_hash(fields@[n - 1].ty),
        )
    }
}

/// The fingerprint of a whole schema.
pub open spec fn spec_fingerprint(s: Schema) -> u64 {
    spec_fields_hash(s.fields, s.fields@.len() as int)
}

fn mix(h: u64, x: u64) -> (r: u64)
    ensures
        r == spec_mix(h, x),
{
    h.wrapping_mul(31).wrapping_add(x)
}

fn prim_tag(t: PrimType) -> (r: u64)
    ensures
        r == spec_prim_tag(t),
{
    match t {
        PrimType::Bool => 0u64,
        PrimType::U8 => 1u64 << 0,
        PrimType::I8 => 1u64 << 1,
        PrimType::I16 => 1u64 << 2,
        PrimType::I32 => 1u64 << 3,
        PrimType::U64 => 1u64 << 4,
        PrimType::I64 => 1u64 << 5,
        PrimType::F32 => 1u64 << 6,
        PrimType::F64 => 1u64 << 7,
        PrimType::Str => 1u64 << 8,
    }
}

fn name_hash(name: &String) -> (r: u64)
    ensures
        r == spec_name_hash(name@),
{
    let bytes: &[u8] = name.as_str().as_bytes();
    let n = bytes.len();
    let mut h: u64 = 0;
    let mut i: usize = 0;
    while i < n
        invariant
            i <= n,
            n == bytes@.len(),
            bytes@ == encode_utf8(name@),
            h == spec_bytes_hash(bytes@, i as int),
        decreases n - i,
    {
        h = mix(h, bytes[i] as u64);
        i = i + 1;
    }
    h
}

fn ty_hash(t: &FieldType) -> (r: u64)
    ensures
        r == spec_ty_hash(*t),
    decreases *t, 1int,
{
    match t {
        FieldType::Prim(p) => prim_tag(*p),
        FieldType::Fixed(el, n) => {
            let eh = ty_hash(el);
            mix(mix(ARRAY_TAG, eh), *n as u64)
        },
        FieldType::Nested(s) => {
            let sh = fields_hash(&s.fields);
            mix(NESTED_TAG, sh)
        },
    }
}

fn fields_hash(fields: &Vec<Field>) -> (r: u64)
    ensures
        r == spec_fields_hash(*fields, fields@.len() as int),
    decreases *fields, 0int,
{
    let n = fields.len();
    let mut h: u64 = 0;
    let mut i: usize = 0;
    while i < n
        invariant
            i <= n,
            n == fields@.len(),
            h == spec_fields_hash(*fields, i as int),
        decreases n - i,
    {
        let nh = name_hash(&fields[i].name);
        let th = ty_hash(&fields[i].ty);
        h = mix(mix(h, nh), th);
        i = i + 1;
    }
    h
}

/// The 64-bit structural fingerprint of `s`.
///
/// The result equals `spec_fingerprint(*s)`, a pure fold over the
/// schema's structure, so repeated computation always yields the same
/// value, on any machine.
pub fn fingerprint(s: &Schema) -> (r: u64)
    ensures
        r == spec_fingerprint(*s),
{
    fields_hash(&s.fields)
}

} // verus!
