//! Typed field values and their decoding by a declared layout.
//!
//! A value is modelled as its type and the numbers it holds: one number for
//! a scalar, one per element for an array. A float's number is its bit
//! pattern, a boolean's is 0 or 1, a character's is its code point.

use vstd::prelude::*;
use vstd::slice::slice_to_vec;
use crate::errors::ULogError;
use crate::field_helpers::{ParseFromBuf, parse_data_field, parse_typed_array};
use crate::format::{FieldDecl, FieldDeclView, Primitive, field_views};
use crate::message_buf::MessageBuf;
use crate::wire::{le_int, le_nat, lemma_le_limits, lemma_le_nat_bound, Float32, Float64};

verus! {

/// The number that the bytes of one value of type `kind` spell.
pub open spec fn number_of(kind: Primitive, bytes: Seq<u8>) -> int {
    match kind {
        Primitive::Int8 | Primitive::Int16 | Primitive::Int32 | Primitive::Int64 => le_int(bytes),
        Primitive::Bool => if le_nat(bytes) != 0 {
            1
        } else {
            0
        },
        _ => le_nat(bytes) as int,
    }
}

/// The numbers that a field of the given type spells in `bytes`: its
/// elements, in order.
pub open spec fn numbers_of(field: FieldDeclView, bytes: Seq<u8>) -> Seq<int> {
    let w = field.kind.spec_width();
    Seq::new(field.count(), |i: int| number_of(field.kind, bytes.subrange(i * w, i * w + w)))
}

/// A typed value, as plain values: its type, whether it is an array, and
/// the numbers it holds.
pub struct ValueView {
    pub kind: Primitive,
    pub is_array: bool,
    pub numbers: Seq<int>,
}

/// The value that a field of the given type has in `bytes`.
pub open spec fn value_of(field: FieldDeclView, bytes: Seq<u8>) -> ValueView {
    ValueView { kind: field.kind, is_array: field.array_len is Some, numbers: numbers_of(field, bytes) }
}

/// A scalar type of the wire format, with the number that a value of it
/// stands for.
pub trait WireScalar: ParseFromBuf {
    /// The primitive that this type decodes.
    spec fn kind() -> Primitive;

    /// The value as a number.
    spec fn number(self) -> int;

    /// Decoding agrees with the arithmetic reading of the bytes.
    proof fn lemma_number(bytes: Seq<u8>)
        requires
            bytes.len() == Self::wire_width(),
        ensures
            Self::wire_width() == Self::kind().spec_width(),
            Self::from_wire(bytes).number() == number_of(Self::kind(), bytes),
    ;
}

impl WireScalar for u8 {
    open spec fn kind() -> Primitive {
        Primitive::UInt8
    }

    open spec fn number(self) -> int {
        self as int
    }

    proof fn lemma_number(bytes: Seq<u8>) {
        lemma_le_nat_bound(bytes);
        lemma_le_limits();
    }
}

impl WireScalar for u16 {
    open spec fn kind() -> Primitive {
        Primitive::UInt16
    }

    open spec fn number(self) -> int {
        self as int
    }

    proof fn lemma_number(bytes: Seq<u8>) {
        lemma_le_nat_bound(bytes);
        lemma_le_limits();
    }
}

impl WireScalar for u32 {
    open spec fn kind() -> Primitive {
        Primitive::UInt32
    }

    open spec fn number(self) -> int {
        self as int
    }

    proof fn lemma_number(bytes: Seq<u8>) {
        lemma_le_nat_bound(bytes);
        lemma_le_limits();
    }
}

impl WireScalar for u64 {
    open spec fn kind() -> Primitive {
        Primitive::UInt64
    }

    open spec fn number(self) -> int {
        self as int
    }

    proof fn lemma_number(bytes: Seq<u8>) {
        lemma_le_nat_bound(bytes);
        lemma_le_limits();
    }
}

impl WireScalar for i8 {
    open spec fn kind() -> Primitive {
        Primitive::Int8
    }

    open spec fn number(self) -> int {
        self as int
    }

    proof fn lemma_number(bytes: Seq<u8>) {
        lemma_le_nat_bound(bytes);
        lemma_le_limits();
    }
}

impl WireScalar for i16 {
    open spec fn kind() -> Primitive {
        Primitive::Int16
    }

    open spec fn number(self) -> int {
        self as int
    }

    proof fn lemma_number(bytes: Seq<u8>) {
        lemma_le_nat_bound(bytes);
        lemma_le_limits();
    }
}

impl WireScalar for i32 {
    open spec fn kind() -> Primitive {
        Primitive::Int32
    }

    open spec fn number(self) -> int {
        self as int
    }

    proof fn lemma_number(bytes: Seq<u8>) {
        lemma_le_nat_bound(bytes);
        lemma_le_limits();
    }
}

impl WireScalar for i64 {
    open spec fn kind() -> Primitive {
        Primitive::Int64
    }

    open spec fn number(self) -> int {
        self as int
    }

    proof fn lemma_number(bytes: Seq<u8>) {
        lemma_le_nat_bound(bytes);
        lemma_le_limits();
    }
}

impl WireScalar for Float32 {
    open spec fn kind() -> Primitive {
        Primitive::Float
    }

    open spec fn number(self) -> int {
        self.bits as int
    }

    proof fn lemma_number(bytes: Seq<u8>) {
        lemma_le_nat_bound(bytes);
        lemma_le_limits();
    }
}

impl WireScalar for Float64 {
    open spec fn kind() -> Primitive {
        Primitive::Double
    }

    open spec fn number(self) -> int {
        self.bits as int
    }

    proof fn lemma_number(bytes: Seq<u8>) {
        lemma_le_nat_bound(bytes);
        lemma_le_limits();
    }
}

impl WireScalar for bool {
    open spec fn kind() -> Primitive {
        Primitive::Bool
    }

    open spec fn number(self) -> int {
        if self { 1 } else { 0 }
    }

    proof fn lemma_number(bytes: Seq<u8>) {
        lemma_le_nat_bound(bytes);
        lemma_le_limits();
    }
}

impl WireScalar for char {
    open spec fn kind() -> Primitive {
        Primitive::Char
    }

    open spec fn number(self) -> int {
        self as int
    }

    proof fn lemma_number(bytes: Seq<u8>) {
        lemma_le_nat_bound(bytes);
        lemma_le_limits();
    }
}

/// The numbers that a run of scalars stands for.
pub open spec fn numbers<T: WireScalar>(values: Seq<T>) -> Seq<int> {
    Seq::new(values.len(), |i: int| values[i].number())
}

/// A decoded field value: a scalar of one of the primitive types, or an
/// array of them.
#[derive(Debug, PartialEq, Eq)]
pub enum FieldValue {
    UInt8(u8),
    UInt16(u16),
    UInt32(u32),
    UInt64(u64),
    Int8(i8),
    Int16(i16),
    Int32(i32),
    Int64(i64),
    Float(Float32),
    Double(Float64),
    Bool(bool),
    Char(char),
    UInt8Array(Vec<u8>),
    UInt16Array(Vec<u16>),
    UInt32Array(Vec<u32>),
    UInt64Array(Vec<u64>),
    Int8Array(Vec<i8>),
    Int16Array(Vec<i16>),
    Int32Array(Vec<i32>),
    Int64Array(Vec<i64>),
    FloatArray(Vec<Float32>),
    DoubleArray(Vec<Float64>),
    BoolArray(Vec<bool>),
    CharArray(Vec<char>),
}

impl View for FieldValue {
    type V = ValueView;

    open spec fn view(&self) -> ValueView {
        match *self {
            FieldValue::UInt8(v) => ValueView {
                kind: Primitive::UInt8,
                is_array: false,
                numbers: seq![v.number()],
            },
            FieldValue::UInt16(v) => ValueView {
                kind: Primitive::UInt16,
                is_array: false,
                numbers: seq![v.number()],
            },
            FieldValue::UInt32(v) => ValueView {
                kind: Primitive::UInt32,
                is_array: false,
                numbers: seq![v.number()],
            },
            FieldValue::UInt64(v) => ValueView {
                kind: Primitive::UInt64,
                is_array: false,
                numbers: seq![v.number()],
            },
            FieldValue::Int8(v) => ValueView {
                kind: Primitive::Int8,
                is_array: false,
                numbers: seq![v.number()],
            },
            FieldValue::Int16(v) => ValueView {
                kind: Primitive::Int16,
                is_array: false,
                numbers: seq![v.number()],
            },
            FieldValue::Int32(v) => ValueView {
                kind: Primitive::Int32,
                is_array: false,
                numbers: seq![v.number()],
            },
            FieldValue::Int64(v) => ValueView {
                kind: Primitive::Int64,
                is_array: false,
                numbers: seq![v.number()],
            },
            FieldValue::Float(v) => ValueView {
                kind: Primitive::Float,
                is_array: false,
                numbers: seq![v.number()],
            },
            FieldValue::Double(v) => ValueView {
                kind: Primitive::Double,
                is_array: false,
                numbers: seq![v.number()],
            },
            FieldValue::Bool(v) => ValueView {
                kind: Primitive::Bool,
                is_array: false,
                numbers: seq![v.number()],
            },
            FieldValue::Char(v) => ValueView {
                kind: Primitive::Char,
                is_array: false,
                numbers: seq![v.number()],
            },
            FieldValue::UInt8Array(v) => ValueView {
                kind: Primitive::UInt8,
                is_array: true,
                numbers: numbers::<u8>(v@),
            },
            FieldValue::UInt16Array(v) => ValueView {
                kind: Primitive::UInt16,
                is_array: true,
                numbers: numbers::<u16>(v@),
            },
            FieldValue::UInt32Array(v) => ValueView {
                kind: Primitive::UInt32,
                is_array: true,
                numbers: numbers::<u32>(v@),
            },
            FieldValue::UInt64Array(v) => ValueView {
                kind: Primitive::UInt64,
                is_array: true,
                numbers: numbers::<u64>(v@),
            },
            FieldValue::Int8Array(v) => ValueView {
                kind: Primitive::Int8,
                is_array: true,
                numbers: numbers::<i8>(v@),
            },
            FieldValue::Int16Array(v) => ValueView {
                kind: Primitive::Int16,
                is_array: true,
                numbers: numbers::<i16>(v@),
            },
            FieldValue::Int32Array(v) => ValueView {
                kind: Primitive::Int32,
                is_array: true,
                numbers: numbers::<i32>(v@),
            },
            FieldValue::Int64Array(v) => ValueView {
                kind: Primitive::Int64,
                is_array: true,
                numbers: numbers::<i64>(v@),
            },
            FieldValue::FloatArray(v) => ValueView {
                kind: Primitive::Float,
                is_array: true,
                numbers: numbers::<Float32>(v@),
            },
            FieldValue::DoubleArray(v) => ValueView {
                kind: Primitive::Double,
                is_array: true,
                numbers: numbers::<Float64>(v@),
            },
            FieldValue::BoolArray(v) => ValueView {
                kind: Primitive::Bool,
                is_array: true,
                numbers: numbers::<bool>(v@),
            },
            FieldValue::CharArray(v) => ValueView {
                kind: Primitive::Char,
                is_array: true,
                numbers: numbers::<char>(v@),
            },
        }
    }
}

/// How a field read fails: the payload ran out, and the cursor stands
/// behind the last whole element that it still held.
pub open spec fn field_fails(field: FieldDeclView, before: Seq<u8>, after: Seq<u8>, e: ULogError) -> bool {
    let w = field.kind.spec_width();
    &&& before.len() < field.size()
    &&& e == ULogError::UnexpectedEndOfPayload
    &&& after == before.skip(((before.len() / w) * w) as int)
}

/// How a field read succeeds: the payload held the whole field, the cursor
/// stands behind it, and `numbers` are what its bytes spell.
pub open spec fn field_holds(field: FieldDeclView, before: Seq<u8>, after: Seq<u8>, numbers: Seq<int>) -> bool {
    &&& before.len() >= field.size()
    &&& numbers == numbers_of(field, before.take(field.size() as int))
    &&& after == before.skip(field.size() as int)
}

/// Decodes a scalar field of type `T`.
fn decode_scalar<T: WireScalar>(field: &FieldDecl, buf: &mut MessageBuf) -> (r: Result<T, ULogError>)
    requires
        field@.kind == T::kind(),
        field@.array_len is None,
    ensures
        match r {
            Ok(v) => field_holds(field@, old(buf)@, final(buf)@, seq![v.number()]),
            Err(e) => field_fails(field@, old(buf)@, final(buf)@, e),
        },
{
    let ghost before = buf@;
    let ghost w = T::wire_width() as int;
    proof {
        T::lemma_number(Seq::new(w as nat, |i: int| 0u8));
        assert(1 * w == w) by (nonlinear_arith);
        if before.len() >= w {
            T::lemma_number(before.take(w));
            assert(before.take(w).subrange(0 * w, 0 * w + w) =~= before.take(w));
        } else {
            let n = before.len() as int;
            assert(n / w == 0) by (nonlinear_arith)
                requires
                    0 <= n < w,
            ;
            assert(before.skip(0) =~= before);
        }
    }
    let r = parse_data_field::<T>(buf);
    proof {
        if r is Ok {
            assert(seq![r->Ok_0.number()] =~= numbers_of(field@, before.take(w)));
        }
    }
    r
}

/// Decodes an array field with elements of type `T`.
fn decode_array<T: WireScalar + 'static>(field: &FieldDecl, len: u16, buf: &mut MessageBuf) -> (r:
    Result<Vec<T>, ULogError>)
    requires
        field@.kind == T::kind(),
        field@.array_len == Some(len),
    ensures
        match r {
            Ok(v) => field_holds(field@, old(buf)@, final(buf)@, numbers::<T>(v@)),
            Err(e) => field_fails(field@, old(buf)@, final(buf)@, e),
        },
{
    let ghost before = buf@;
    let ghost w = T::wire_width() as int;
    let r = parse_typed_array::<T>(len as usize, buf);
    proof {
        T::lemma_number(Seq::new(w as nat, |i: int| 0u8));
        if r is Ok {
            let v = r->Ok_0;
            let size = field@.size() as int;
            let bytes = before.take(size);
            assert forall|i: int| 0 <= i < len implies (#[trigger] v@[i]).number() == number_of(
                field@.kind,
                bytes.subrange(i * w, i * w + w),
            ) by {
                assert(i * w + w <= len * w) by (nonlinear_arith)
                    requires
                        0 <= i < len,
                        w >= 0,
                ;
                assert(i * w >= 0) by (nonlinear_arith)
                    requires
                        0 <= i,
                        w >= 0,
                ;
                assert(bytes.subrange(i * w, i * w + w) =~= before.subrange(i * w, i * w + w));
                T::lemma_number(before.subrange(i * w, i * w + w));
            }
            assert(numbers::<T>(v@) =~= numbers_of(field@, bytes));
        }
    }
    r
}

/// Decodes the value of one declared field at the cursor, by the field's
/// type and array length.
pub fn decode_field(field: &FieldDecl, buf: &mut MessageBuf) -> (r: Result<FieldValue, ULogError>)
    ensures
        match r {
            Ok(value) => {
                &&& old(buf)@.len() >= field@.size()
                &&& value@ == value_of(field@, old(buf)@.take(field@.size() as int))
                &&& final(buf)@ == old(buf)@.skip(field@.size() as int)
            },
            Err(e) => field_fails(field@, old(buf)@, final(buf)@, e),
        },
{
    match field.array_len {
        None => match field.kind {
            Primitive::UInt8 => Ok(FieldValue::UInt8(decode_scalar::<u8>(field, buf)?)),
            Primitive::UInt16 => Ok(FieldValue::UInt16(decode_scalar::<u16>(field, buf)?)),
            Primitive::UInt32 => Ok(FieldValue::UInt32(decode_scalar::<u32>(field, buf)?)),
            Primitive::UInt64 => Ok(FieldValue::UInt64(decode_scalar::<u64>(field, buf)?)),
            Primitive::Int8 => Ok(FieldValue::Int8(decode_scalar::<i8>(field, buf)?)),
            Primitive::Int16 => Ok(FieldValue::Int16(decode_scalar::<i16>(field, buf)?)),
            Primitive::Int32 => Ok(FieldValue::Int32(decode_scalar::<i32>(field, buf)?)),
            Primitive::Int64 => Ok(FieldValue::Int64(decode_scalar::<i64>(field, buf)?)),
            Primitive::Float => Ok(FieldValue::Float(decode_scalar::<Float32>(field, buf)?)),
            Primitive::Double => Ok(FieldValue::Double(decode_scalar::<Float64>(field, buf)?)),
            Primitive::Bool => Ok(FieldValue::Bool(decode_scalar::<bool>(field, buf)?)),
            Primitive::Char => Ok(FieldValue::Char(decode_scalar::<char>(field, buf)?)),
        },
        Some(len) => match field.kind {
            Primitive::UInt8 => Ok(FieldValue::UInt8Array(decode_array::<u8>(field, len, buf)?)),
            Primitive::UInt16 => Ok(FieldValue::UInt16Array(decode_array::<u16>(field, len, buf)?)),
            Primitive::UInt32 => Ok(FieldValue::UInt32Array(decode_array::<u32>(field, len, buf)?)),
            Primitive::UInt64 => Ok(FieldValue::UInt64Array(decode_array::<u64>(field, len, buf)?)),
            Primitive::Int8 => Ok(FieldValue::Int8Array(decode_array::<i8>(field, len, buf)?)),
            Primitive::Int16 => Ok(FieldValue::Int16Array(decode_array::<i16>(field, len, buf)?)),
            Primitive::Int32 => Ok(FieldValue::Int32Array(decode_array::<i32>(field, len, buf)?)),
            Primitive::Int64 => Ok(FieldValue::Int64Array(decode_array::<i64>(field, len, buf)?)),
            Primitive::Float => Ok(FieldValue::FloatArray(decode_array::<Float32>(field, len, buf)?)),
            Primitive::Double => Ok(FieldValue::DoubleArray(decode_array::<Float64>(field, len, buf)?)),
            Primitive::Bool => Ok(FieldValue::BoolArray(decode_array::<bool>(field, len, buf)?)),
            Primitive::Char => Ok(FieldValue::CharArray(decode_array::<char>(field, len, buf)?)),
        },
    }
}

/// One decoded field of a data message: the declared name and the value.
#[derive(Debug, PartialEq, Eq)]
pub struct DataField {
    pub name: Vec<u8>,
    pub value: FieldValue,
}

/// A decoded field, as plain values.
pub struct DataFieldView {
    pub name: Seq<u8>,
    pub value: ValueView,
}

impl View for DataField {
    type V = DataFieldView;

    open spec fn view(&self) -> DataFieldView {
        DataFieldView { name: self.name@, value: self.value@ }
    }
}

/// The views of a run of decoded fields.
pub open spec fn data_views(fields: Seq<DataField>) -> Seq<DataFieldView> {
    Seq::new(fields.len(), |i: int| fields[i]@)
}

/// The number of bytes that the fields of a layout occupy together.
pub open spec fn layout_size(layout: Seq<FieldDeclView>) -> nat
    decreases layout.len(),
{
    if layout.len() == 0 {
        0
    } else {
        layout_size(layout.drop_last()) + layout.last().size()
    }
}

/// The offset within a payload at which field `i` of a layout starts.
pub open spec fn field_offset(layout: Seq<FieldDeclView>, i: int) -> int {
    layout_size(layout.take(i)) as int
}

/// The fields that a payload holds by a layout: each declared name with
/// the value that its bytes spell, in declared order.
pub open spec fn values_of(layout: Seq<FieldDeclView>, payload: Seq<u8>) -> Seq<DataFieldView> {
    Seq::new(
        layout.len(),
        |i: int|
            DataFieldView {
                name: layout[i].name,
                value: value_of(
                    layout[i],
                    payload.subrange(field_offset(layout, i), field_offset(layout, i + 1)),
                ),
            },
    )
}

/// Each field starts where the one before ends, and none starts beyond the
/// layout's size.
pub proof fn lemma_field_offsets(layout: Seq<FieldDeclView>, i: int)
    requires
        0 <= i < layout.len(),
    ensures
        field_offset(layout, i + 1) == field_offset(layout, i) + layout[i].size(),
        field_offset(layout, i + 1) <= layout_size(layout),
    decreases layout.len() - i,
{
    assert(layout.take(i + 1).drop_last() =~= layout.take(i));
    if i + 1 < layout.len() {
        lemma_field_offsets(layout, i + 1);
    }
}

/// Decodes every field of `layout` from `payload`, in declared order, and
/// hands back what the payload holds behind the last of them.
///
/// A payload shorter than the layout is an error, never a record with fewer
/// fields.
pub fn decode_fields<'a>(layout: &[FieldDecl], payload: &'a [u8]) -> (r: Result<
    (Vec<DataField>, &'a [u8]),
    ULogError,
>)
    ensures
        match r {
            Ok((fields, rest)) => {
                &&& payload@.len() >= layout_size(field_views(layout@))
                &&& data_views(fields@) == values_of(field_views(layout@), payload@)
                &&& rest@ == payload@.skip(layout_size(field_views(layout@)) as int)
            },
            Err(e) => {
                &&& payload@.len() < layout_size(field_views(layout@))
                &&& e == ULogError::UnexpectedEndOfPayload
            },
        },
{
    let ghost declared = field_views(layout@);
    let mut buf = MessageBuf::new(payload);
    let mut fields: Vec<DataField> = Vec::new();
    let mut i: usize = 0;
    while i < layout.len()
        invariant
            i <= layout@.len(),
            declared == field_views(layout@),
            fields@.len() == i,
            payload@.len() >= field_offset(declared, i as int),
            buf@ == payload@.skip(field_offset(declared, i as int)),
            forall|j: int|
                0 <= j < i ==> (#[trigger] fields@[j])@ == values_of(declared, payload@)[j],
        decreases layout@.len() - i,
    {
        let field = &layout[i];
        let ghost at = field_offset(declared, i as int);
        proof {
            lemma_field_offsets(declared, i as int);
        }
        let value = match decode_field(field, &mut buf) {
            Ok(value) => value,
            Err(e) => {
                return Err(e);
            },
        };
        let name = slice_to_vec(field.name.as_slice());
        proof {
            let size = field@.size() as int;
            assert(payload@.skip(at).take(size) =~= payload@.subrange(at, at + size));
        }
        fields.push(DataField { name, value });
        i += 1;
    }
    proof {
        assert(declared.take(i as int) =~= declared);
    }
    Ok((fields, buf.remaining_bytes()))
}

} // verus!
