//! Format definitions: the field layouts that a stream declares for its
//! message names.
//!
//! A definition is text, `name:type field;type[len] field;...`. Every field
//! ends in a semicolon and its type names one of the twelve primitives,
//! alone or with an array length in brackets.

use vstd::prelude::*;
use vstd::slice::{slice_subrange, slice_to_vec};

verus! {

/// The primitive types that a field can have.
#[derive(Clone, Copy, Debug, PartialEq, Eq, Structural)]
pub enum Primitive {
    UInt8,
    UInt16,
    UInt32,
    UInt64,
    Int8,
    Int16,
    Int32,
    Int64,
    Float,
    Double,
    Bool,
    Char,
}

impl Primitive {
    /// The number of bytes that one value of this type occupies.
    pub open spec fn spec_width(self) -> nat {
        match self {
            Primitive::UInt8 | Primitive::Int8 | Primitive::Bool | Primitive::Char => 1,
            Primitive::UInt16 | Primitive::Int16 => 2,
            Primitive::UInt32 | Primitive::Int32 | Primitive::Float => 4,
            Primitive::UInt64 | Primitive::Int64 | Primitive::Double => 8,
        }
    }

    /// The number of bytes that one value of this type occupies.
    pub fn width(self) -> (w: usize)
        ensures
            w == self.spec_width(),
    {
        match self {
            Primitive::UInt8 | Primitive::Int8 | Primitive::Bool | Primitive::Char => 1,
            Primitive::UInt16 | Primitive::Int16 => 2,
            Primitive::UInt32 | Primitive::Int32 | Primitive::Float => 4,
            Primitive::UInt64 | Primitive::Int64 | Primitive::Double => 8,
        }
    }

    /// The name by which a format definition calls this type.
    pub open spec fn wire_name(self) -> Seq<u8> {
        match self {
            Primitive::UInt8 => seq![
                'u' as u8,
                'i' as u8,
                'n' as u8,
                't' as u8,
                '8' as u8,
                '_' as u8,
                't' as u8,
            ],
            Primitive::UInt16 => seq![
                'u' as u8,
                'i' as u8,
                'n' as u8,
                't' as u8,
                '1' as u8,
                '6' as u8,
                '_' as u8,
                't' as u8,
            ],
            Primitive::UInt32 => seq![
                'u' as u8,
                'i' as u8,
                'n' as u8,
                't' as u8,
                '3' as u8,
                '2' as u8,
                '_' as u8,
                't' as u8,
            ],
            Primitive::UInt64 => seq![
                'u' as u8,
                'i' as u8,
                'n' as u8,
                't' as u8,
                '6' as u8,
                '4' as u8,
                '_' as u8,
                't' as u8,
            ],
            Primitive::Int8 => seq!['i' as u8, 'n' as u8, 't' as u8, '8' as u8, '_' as u8, 't' as u8],
            Primitive::Int16 => seq![
                'i' as u8,
                'n' as u8,
                't' as u8,
                '1' as u8,
                '6' as u8,
                '_' as u8,
                't' as u8,
            ],
            Primitive::Int32 => seq![
                'i' as u8,
                'n' as u8,
                't' as u8,
                '3' as u8,
                '2' as u8,
                '_' as u8,
                't' as u8,
            ],
            Primitive::Int64 => seq![
                'i' as u8,
                'n' as u8,
                't' as u8,
                '6' as u8,
                '4' as u8,
                '_' as u8,
                't' as u8,
            ],
            Primitive::Float => seq!['f' as u8, 'l' as u8, 'o' as u8, 'a' as u8, 't' as u8],
            Primitive::Double => seq!['d' as u8, 'o' as u8, 'u' as u8, 'b' as u8, 'l' as u8, 'e' as u8],
            Primitive::Bool => seq!['b' as u8, 'o' as u8, 'o' as u8, 'l' as u8],
            Primitive::Char => seq!['c' as u8, 'h' as u8, 'a' as u8, 'r' as u8],
        }
    }
}

/// The primitive that `name` names, if it names one.
pub open spec fn kind_named(name: Seq<u8>) -> Option<Primitive> {
    if name == Primitive::UInt8.wire_name() {
        Some(Primitive::UInt8)
    } else if name == Primitive::UInt16.wire_name() {
        Some(Primitive::UInt16)
    } else if name == Primitive::UInt32.wire_name() {
        Some(Primitive::UInt32)
    } else if name == Primitive::UInt64.wire_name() {
        Some(Primitive::UInt64)
    } else if name == Primitive::Int8.wire_name() {
        Some(Primitive::Int8)
    } else if name == Primitive::Int16.wire_name() {
        Some(Primitive::Int16)
    } else if name == Primitive::Int32.wire_name() {
        Some(Primitive::Int32)
    } else if name == Primitive::Int64.wire_name() {
        Some(Primitive::Int64)
    } else if name == Primitive::Float.wire_name() {
        Some(Primitive::Float)
    } else if name == Primitive::Double.wire_name() {
        Some(Primitive::Double)
    } else if name == Primitive::Bool.wire_name() {
        Some(Primitive::Bool)
    } else if name == Primitive::Char.wire_name() {
        Some(Primitive::Char)
    } else {
        None
    }
}

/// The number of bytes of `text` that come before the first `byte`: its
/// index, or the length of `text` where there is none.
pub open spec fn position(text: Seq<u8>, byte: u8) -> int
    decreases text.len(),
{
    if text.len() == 0 || text[0] == byte {
        0
    } else {
        1 + position(text.skip(1), byte)
    }
}

/// `position` is the least index that holds `byte`.
pub proof fn lemma_position(text: Seq<u8>, byte: u8)
    ensures
        0 <= position(text, byte) <= text.len(),
        position(text, byte) < text.len() ==> text[position(text, byte)] == byte,
        forall|i: int| 0 <= i < position(text, byte) ==> text[i] != byte,
    decreases text.len(),
{
    if text.len() > 0 && text[0] != byte {
        let rest = text.skip(1);
        lemma_position(rest, byte);
        assert forall|i: int| 0 <= i < position(text, byte) implies text[i] != byte by {
            if i > 0 {
                assert(rest[i - 1] == text[i]);
            }
        }
    }
}

/// An index that holds `byte` with none before it is the `position`.
pub proof fn lemma_position_is(text: Seq<u8>, byte: u8, at: int)
    requires
        0 <= at <= text.len(),
        at < text.len() ==> text[at] == byte,
        forall|i: int| 0 <= i < at ==> text[i] != byte,
    ensures
        position(text, byte) == at,
    decreases text.len(),
{
    if at > 0 {
        let rest = text.skip(1);
        assert(forall|i: int| 0 <= i < at - 1 ==> rest[i] != byte);
        lemma_position_is(rest, byte, at - 1);
    }
}

/// Finds the first `byte` in `text`.
pub fn find_byte(text: &[u8], byte: u8) -> (at: usize)
    ensures
        at == position(text@, byte),
{
    let mut at: usize = 0;
    while at < text.len() && text[at] != byte
        invariant
            at <= text@.len(),
            forall|i: int| 0 <= i < at ==> text@[i] != byte,
        decreases text@.len() - at,
    {
        at += 1;
    }
    proof {
        lemma_position_is(text@, byte, at as int);
    }
    at
}

/// Do two byte strings hold the same bytes?
pub fn bytes_equal(a: &[u8], b: &[u8]) -> (r: bool)
    ensures
        r == (a@ == b@),
{
    if a.len() != b.len() {
        return false;
    }
    let mut i: usize = 0;
    while i < a.len()
        invariant
            a@.len() == b@.len(),
            i <= a@.len(),
            forall|j: int| 0 <= j < i ==> a@[j] == b@[j],
        decreases a@.len() - i,
    {
        if a[i] != b[i] {
            return false;
        }
        i += 1;
    }
    proof {
        assert(a@ =~= b@);
    }
    true
}

/// Does `text` spell the name of `kind`?
fn names_kind(text: &[u8], kind: Primitive) -> (r: bool)
    ensures
        r == (text@ == kind.wire_name()),
{
    match kind {
        Primitive::UInt8 => {
            let name: [u8; 7] = ['u' as u8, 'i' as u8, 'n' as u8, 't' as u8, '8' as u8, '_' as u8, 't' as u8];
            bytes_equal(text, name.as_slice())
        },
        Primitive::UInt16 => {
            let name: [u8; 8] = ['u' as u8, 'i' as u8, 'n' as u8, 't' as u8, '1' as u8, '6' as u8, '_' as u8, 't' as u8];
            bytes_equal(text, name.as_slice())
        },
        Primitive::UInt32 => {
            let name: [u8; 8] = ['u' as u8, 'i' as u8, 'n' as u8, 't' as u8, '3' as u8, '2' as u8, '_' as u8, 't' as u8];
            bytes_equal(text, name.as_slice())
        },
        Primitive::UInt64 => {
            let name: [u8; 8] = ['u' as u8, 'i' as u8, 'n' as u8, 't' as u8, '6' as u8, '4' as u8, '_' as u8, 't' as u8];
            bytes_equal(text, name.as_slice())
        },
        Primitive::Int8 => {
            let name: [u8; 6] = ['i' as u8, 'n' as u8, 't' as u8, '8' as u8, '_' as u8, 't' as u8];
            bytes_equal(text, name.as_slice())
        },
        Primitive::Int16 => {
            let name: [u8; 7] = ['i' as u8, 'n' as u8, 't' as u8, '1' as u8, '6' as u8, '_' as u8, 't' as u8];
            bytes_equal(text, name.as_slice())
        },
        Primitive::Int32 => {
            let name: [u8; 7] = ['i' as u8, 'n' as u8, 't' as u8, '3' as u8, '2' as u8, '_' as u8, 't' as u8];
            bytes_equal(text, name.as_slice())
        },
        Primitive::Int64 => {
            let name: [u8; 7] = ['i' as u8, 'n' as u8, 't' as u8, '6' as u8, '4' as u8, '_' as u8, 't' as u8];
            bytes_equal(text, name.as_slice())
        },
        Primitive::Float => {
            let name: [u8; 5] = ['f' as u8, 'l' as u8, 'o' as u8, 'a' as u8, 't' as u8];
            bytes_equal(text, name.as_slice())
        },
        Primitive::Double => {
            let name: [u8; 6] = ['d' as u8, 'o' as u8, 'u' as u8, 'b' as u8, 'l' as u8, 'e' as u8];
            bytes_equal(text, name.as_slice())
        },
        Primitive::Bool => {
            let name: [u8; 4] = ['b' as u8, 'o' as u8, 'o' as u8, 'l' as u8];
            bytes_equal(text, name.as_slice())
        },
        Primitive::Char => {
            let name: [u8; 4] = ['c' as u8, 'h' as u8, 'a' as u8, 'r' as u8];
            bytes_equal(text, name.as_slice())
        },
    }
}

impl Primitive {
    /// The primitive that `name` names, if it names one.
    pub fn from_name(name: &[u8]) -> (r: Option<Primitive>)
        ensures
            r == kind_named(name@),
    {
        if names_kind(name, Primitive::UInt8) {
            Some(Primitive::UInt8)
        } else if names_kind(name, Primitive::UInt16) {
            Some(Primitive::UInt16)
        } else if names_kind(name, Primitive::UInt32) {
            Some(Primitive::UInt32)
        } else if names_kind(name, Primitive::UInt64) {
            Some(Primitive::UInt64)
        } else if names_kind(name, Primitive::Int8) {
            Some(Primitive::Int8)
        } else if names_kind(name, Primitive::Int16) {
            Some(Primitive::Int16)
        } else if names_kind(name, Primitive::Int32) {
            Some(Primitive::Int32)
        } else if names_kind(name, Primitive::Int64) {
            Some(Primitive::Int64)
        } else if names_kind(name, Primitive::Float) {
            Some(Primitive::Float)
        } else if names_kind(name, Primitive::Double) {
            Some(Primitive::Double)
        } else if names_kind(name, Primitive::Bool) {
            Some(Primitive::Bool)
        } else if names_kind(name, Primitive::Char) {
            Some(Primitive::Char)
        } else {
            None
        }
    }
}

/// The number that a string of decimal digits spells.
pub open spec fn decimal_value(digits: Seq<u8>) -> nat
    decreases digits.len(),
{
    if digits.len() == 0 {
        0
    } else {
        (10 * decimal_value(digits.drop_last()) + (digits.last() - '0' as u8)) as nat
    }
}

/// Is every byte of `text` a decimal digit?
pub open spec fn all_digits(text: Seq<u8>) -> bool {
    forall|i: int| 0 <= i < text.len() ==> '0' as u8 <= #[trigger] text[i] <= '9' as u8
}

/// The array length that `text` spells: one or more decimal digits with a
/// value of at most 65535, which is more elements than a payload can hold.
pub open spec fn array_len_of(text: Seq<u8>) -> Option<u16> {
    if text.len() > 0 && all_digits(text) && decimal_value(text) <= u16::MAX {
        Some(decimal_value(text) as u16)
    } else {
        None
    }
}

/// A number does not get smaller when digits are appended to it.
proof fn lemma_decimal_grows(digits: Seq<u8>, k: int)
    requires
        all_digits(digits),
        0 <= k <= digits.len(),
    ensures
        decimal_value(digits.take(k)) <= decimal_value(digits),
    decreases digits.len() - k,
{
    if k < digits.len() {
        lemma_decimal_grows(digits, k + 1);
        assert(digits.take(k + 1).drop_last() =~= digits.take(k));
    } else {
        assert(digits.take(k) =~= digits);
    }
}

/// Reads an array length.
pub fn parse_array_len(text: &[u8]) -> (r: Option<u16>)
    ensures
        r == array_len_of(text@),
{
    if text.len() == 0 {
        return None;
    }
    let mut value: u32 = 0;
    let mut i: usize = 0;
    while i < text.len()
        invariant
            i <= text@.len(),
            all_digits(text@.take(i as int)),
            value == decimal_value(text@.take(i as int)),
            value <= u16::MAX,
        decreases text@.len() - i,
    {
        let digit: u8 = text[i];
        if digit < '0' as u8 || digit > '9' as u8 {
            return None;
        }
        let ghost shorter = text@.take(i as int);
        let ghost longer = text@.take(i + 1);
        proof {
            assert(longer.drop_last() =~= shorter);
            assert(all_digits(longer));
        }
        value = 10 * value + (digit - '0' as u8) as u32;
        i += 1;
        if value > 0xffff {
            proof {
                if all_digits(text@) {
                    lemma_decimal_grows(text@, i as int);
                }
            }
            return None;
        }
    }
    proof {
        assert(text@.take(i as int) =~= text@);
    }
    Some(value as u16)
}

/// What a field's type says: the primitive, and the array length if the
/// field is an array.
pub type FieldType = (Primitive, Option<u16>);

/// The type that `text` spells: a primitive's name, alone or followed by
/// an array length in brackets.
pub open spec fn field_type_of(text: Seq<u8>) -> Option<FieldType> {
    let open = position(text, '[' as u8);
    if open >= text.len() {
        match kind_named(text) {
            Some(kind) => Some((kind, None)),
            None => None,
        }
    } else if text.last() != ']' as u8 {
        None
    } else {
        match (kind_named(text.take(open)), array_len_of(text.subrange(open + 1, text.len() - 1))) {
            (Some(kind), Some(len)) => Some((kind, Some(len))),
            _ => None,
        }
    }
}

/// Reads a field's type.
pub fn parse_field_type(text: &[u8]) -> (r: Option<FieldType>)
    ensures
        r == field_type_of(text@),
{
    let open: usize = find_byte(text, '[' as u8);
    proof {
        lemma_position(text@, '[' as u8);
    }
    if open >= text.len() {
        return match Primitive::from_name(text) {
            Some(kind) => Some((kind, None)),
            None => None,
        };
    }
    let last: usize = text.len() - 1;
    if text[last] != ']' as u8 {
        return None;
    }
    let kind = Primitive::from_name(slice_subrange(text, 0, open));
    let len = parse_array_len(slice_subrange(text, open + 1, last));
    match (kind, len) {
        (Some(kind), Some(len)) => Some((kind, Some(len))),
        _ => None,
    }
}

/// One declared field: its name and its type.
#[derive(Debug, PartialEq, Eq)]
pub struct FieldDecl {
    pub name: Vec<u8>,
    pub kind: Primitive,
    /// The number of elements, where the field is an array.
    pub array_len: Option<u16>,
}

/// A declared field, as plain values.
pub struct FieldDeclView {
    pub name: Seq<u8>,
    pub kind: Primitive,
    pub array_len: Option<u16>,
}

impl View for FieldDecl {
    type V = FieldDeclView;

    open spec fn view(&self) -> FieldDeclView {
        FieldDeclView { name: self.name@, kind: self.kind, array_len: self.array_len }
    }
}

impl FieldDeclView {
    /// The number of elements that the field holds: one for a scalar.
    pub open spec fn count(self) -> nat {
        match self.array_len {
            Some(len) => len as nat,
            None => 1,
        }
    }

    /// The number of bytes that the field occupies in a payload.
    pub open spec fn size(self) -> nat {
        self.count() * self.kind.spec_width()
    }
}

/// The layout that a stream declares for a message name.
#[derive(Debug, PartialEq, Eq)]
pub struct FormatDefinition {
    pub name: Vec<u8>,
    /// The fields, in the order in which a payload holds them.
    pub fields: Vec<FieldDecl>,
}

/// A format definition, as plain values.
pub struct FormatView {
    pub name: Seq<u8>,
    pub fields: Seq<FieldDeclView>,
}

/// The views of a run of fields.
pub open spec fn field_views(fields: Seq<FieldDecl>) -> Seq<FieldDeclView> {
    Seq::new(fields.len(), |i: int| fields[i]@)
}

impl View for FormatDefinition {
    type V = FormatView;

    open spec fn view(&self) -> FormatView {
        FormatView { name: self.name@, fields: field_views(self.fields@) }
    }
}

/// The field that `text` declares: a type, one space, and the field's
/// name.
pub open spec fn field_of(text: Seq<u8>) -> Option<FieldDeclView> {
    let space = position(text, ' ' as u8);
    if space >= text.len() {
        None
    } else {
        match field_type_of(text.take(space)) {
            Some((kind, array_len)) => Some(
                FieldDeclView { name: text.skip(space + 1), kind, array_len },
            ),
            None => None,
        }
    }
}

/// The fields that `text` declares, each ended by a semicolon.
pub open spec fn fields_of(text: Seq<u8>) -> Option<Seq<FieldDeclView>>
    decreases text.len(),
{
    if text.len() == 0 {
        Some(Seq::<FieldDeclView>::empty())
    } else {
        let semi = position(text, ';' as u8);
        if semi < 0 || semi >= text.len() {
            None
        } else {
            match (field_of(text.take(semi)), fields_of(text.skip(semi + 1))) {
                (Some(field), Some(rest)) => Some(seq![field] + rest),
                _ => None,
            }
        }
    }
}

/// The format that `text` defines: a message name, a colon, and the
/// fields.
pub open spec fn format_of(text: Seq<u8>) -> Option<FormatView> {
    let colon = position(text, ':' as u8);
    if colon >= text.len() {
        None
    } else {
        match fields_of(text.skip(colon + 1)) {
            Some(fields) => Some(FormatView { name: text.take(colon), fields }),
            None => None,
        }
    }
}

/// Reads one field declaration.
pub fn parse_field(text: &[u8]) -> (r: Option<FieldDecl>)
    ensures
        match field_of(text@) {
            Some(field) => r matches Some(decl) && decl@ == field,
            None => r is None,
        },
{
    let space: usize = find_byte(text, ' ' as u8);
    proof {
        lemma_position(text@, ' ' as u8);
    }
    if space >= text.len() {
        return None;
    }
    match parse_field_type(slice_subrange(text, 0, space)) {
        Some((kind, array_len)) => {
            let name = slice_to_vec(slice_subrange(text, space + 1, text.len()));
            Some(FieldDecl { name, kind, array_len })
        },
        None => None,
    }
}

/// Reads a format definition. Text that does not follow the grammar, or
/// that names a type which is not a primitive, defines nothing.
pub fn parse_format(text: &[u8]) -> (r: Option<FormatDefinition>)
    ensures
        match format_of(text@) {
            Some(format) => r matches Some(definition) && definition@ == format,
            None => r is None,
        },
{
    let colon: usize = find_byte(text, ':' as u8);
    proof {
        lemma_position(text@, ':' as u8);
    }
    if colon >= text.len() {
        return None;
    }
    let ghost body = text@.skip(colon + 1);
    let mut fields: Vec<FieldDecl> = Vec::new();
    let mut at: usize = colon + 1;
    while at < text.len()
        invariant
            colon < at <= text@.len(),
            colon == position(text@, ':' as u8),
            body == text@.skip(colon + 1),
            match fields_of(text@.skip(at as int)) {
                Some(rest) => fields_of(body) == Some(field_views(fields@) + rest),
                None => fields_of(body) is None,
            },
        decreases text@.len() - at,
    {
        let rest = slice_subrange(text, at, text.len());
        let semi: usize = find_byte(rest, ';' as u8);
        proof {
            lemma_position(rest@, ';' as u8);
        }
        if semi >= rest.len() {
            return None;
        }
        proof {
            assert(rest@.skip(semi + 1) =~= text@.skip(at + semi + 1));
        }
        match parse_field(slice_subrange(rest, 0, semi)) {
            Some(field) => {
                fields.push(field);
            },
            None => {
                return None;
            },
        }
        at = at + semi + 1;
    }
    let name = slice_to_vec(slice_subrange(text, 0, colon));
    Some(FormatDefinition { name, fields })
}

} // verus!
