//! Native values in dynamic form: the data that crosses the boundary, and
//! the descriptions of the types it is read back as.

use vstd::prelude::*;

verus! {

/// One named field of a record.
#[derive(Debug)]
pub struct Field {
    pub name: String,
    pub value: Value,
}

/// A native value of the structured data model.
#[derive(Debug)]
pub enum Value {
    Unit,
    Bool(bool),
    I8(i8),
    I16(i16),
    I32(i32),
    I64(i64),
    U8(u8),
    U16(u16),
    U32(u32),
    U64(u64),
    /// A number of double precision whose value is this integer.
    Whole(i64),
    /// A number of double precision, by its bits.
    Double(u64),
    Char(char),
    Text(String),
    /// A byte string of the structured model (not a raw buffer).
    Bytes(Vec<u8>),
    /// An optional value that is absent.
    Absent,
    /// An optional value that is present.
    Present(Box<Value>),
    /// A struct without fields.
    UnitStruct,
    /// A struct that wraps one value.
    Newtype(Box<Value>),
    /// An ordered sequence: a growable sequence, a fixed-size array or a tuple.
    Sequence(Vec<Value>),
    /// A struct with named fields.
    Record(Vec<Field>),
    /// A variant of an enum, by its name.
    Variant(String),
    /// A map, by the number of its entries.
    Mapping(usize),
}

/// The mathematical value of a [`Field`].
pub ghost struct FieldView {
    pub name: Seq<char>,
    pub value: ValueView,
}

/// The mathematical value of a [`Value`].
pub ghost enum ValueView {
    Unit,
    Bool(bool),
    I8(i8),
    I16(i16),
    I32(i32),
    I64(i64),
    U8(u8),
    U16(u16),
    U32(u32),
    U64(u64),
    Whole(i64),
    Double(u64),
    Char(char),
    Text(Seq<char>),
    Bytes(Seq<u8>),
    Absent,
    Present(Box<ValueView>),
    UnitStruct,
    Newtype(Box<ValueView>),
    Sequence(Seq<ValueView>),
    Record(Seq<FieldView>),
    Variant(Seq<char>),
    Mapping(nat),
}

/// The views of a vector of values, in order.
pub open spec fn view_values(items: &Vec<Value>) -> Seq<ValueView>
    decreases items,
{
    Seq::new(
        items.len() as nat,
        |i: int|
            if 0 <= i < items.len() {
                items[i].view()
            } else {
                ValueView::Unit
            },
    )
}

/// The views of a vector of fields, in order.
pub open spec fn view_fields(fields: &Vec<Field>) -> Seq<FieldView>
    decreases fields,
{
    Seq::new(
        fields.len() as nat,
        |i: int|
            if 0 <= i < fields.len() {
                FieldView { name: fields[i].name@, value: fields[i].value.view() }
            } else {
                FieldView { name: Seq::empty(), value: ValueView::Unit }
            },
    )
}

impl Field {
    /// The mathematical value.
    pub open spec fn view(&self) -> FieldView {
        FieldView { name: self.name@, value: self.value.view() }
    }
}

impl Value {
    /// The mathematical value.
    pub open spec fn view(&self) -> ValueView
        decreases self,
    {
        match self {
            Value::Unit => ValueView::Unit,
            Value::Bool(b) => ValueView::Bool(*b),
            Value::I8(n) => ValueView::I8(*n),
            Value::I16(n) => ValueView::I16(*n),
            Value::I32(n) => ValueView::I32(*n),
            Value::I64(n) => ValueView::I64(*n),
            Value::U8(n) => ValueView::U8(*n),
            Value::U16(n) => ValueView::U16(*n),
            Value::U32(n) => ValueView::U32(*n),
            Value::U64(n) => ValueView::U64(*n),
            Value::Whole(n) => ValueView::Whole(*n),
            Value::Double(bits) => ValueView::Double(*bits),
            Value::Char(c) => ValueView::Char(*c),
            Value::Text(s) => ValueView::Text(s@),
            Value::Bytes(b) => ValueView::Bytes(b@),
            Value::Absent => ValueView::Absent,
            Value::Present(v) => ValueView::Present(Box::new(v.view())),
            Value::UnitStruct => ValueView::UnitStruct,
            Value::Newtype(v) => ValueView::Newtype(Box::new(v.view())),
            Value::Sequence(items) => ValueView::Sequence(view_values(items)),
            Value::Record(fields) => ValueView::Record(view_fields(fields)),
            Value::Variant(name) => ValueView::Variant(name@),
            Value::Mapping(len) => ValueView::Mapping(*len as nat),
        }
    }
}

/// A description of the native type a value is read back as.
#[derive(Debug)]
pub enum Kind {
    Unit,
    Bool,
    I8,
    I16,
    I32,
    I64,
    U8,
    U16,
    U32,
    U64,
    /// A number of double precision.
    Double,
    Char,
    /// A borrowed string.
    Str,
    /// An owned string.
    Text,
    Bytes,
    Optional(Box<Kind>),
    UnitStruct,
    Newtype(Box<Kind>),
    Sequence(Box<Kind>),
    Record(Vec<FieldKind>),
    Enum,
    Mapping,
    /// Whatever the value turns out to be.
    Any,
}

/// The name and the kind of one field of a record.
#[derive(Debug)]
pub struct FieldKind {
    pub name: String,
    pub kind: Kind,
}

/// The mathematical value of a [`FieldKind`].
pub ghost struct FieldKindView {
    pub name: Seq<char>,
    pub kind: KindView,
}

/// The mathematical value of a [`Kind`].
pub ghost enum KindView {
    Unit,
    Bool,
    I8,
    I16,
    I32,
    I64,
    U8,
    U16,
    U32,
    U64,
    Double,
    Char,
    Str,
    Text,
    Bytes,
    Optional(Box<KindView>),
    UnitStruct,
    Newtype(Box<KindView>),
    Sequence(Box<KindView>),
    Record(Seq<FieldKindView>),
    Enum,
    Mapping,
    Any,
}

/// The views of a vector of field kinds, in order.
pub open spec fn view_field_kinds(fields: &Vec<FieldKind>) -> Seq<FieldKindView>
    decreases fields,
{
    Seq::new(
        fields.len() as nat,
        |i: int|
            if 0 <= i < fields.len() {
                FieldKindView { name: fields[i].name@, kind: fields[i].kind.view() }
            } else {
                FieldKindView { name: Seq::empty(), kind: KindView::Unit }
            },
    )
}

impl FieldKind {
    /// The mathematical value.
    pub open spec fn view(&self) -> FieldKindView {
        FieldKindView { name: self.name@, kind: self.kind.view() }
    }
}

impl Kind {
    /// The mathematical value.
    pub open spec fn view(&self) -> KindView
        decreases self,
    {
        match self {
            Kind::Unit => KindView::Unit,
            Kind::Bool => KindView::Bool,
            Kind::I8 => KindView::I8,
            Kind::I16 => KindView::I16,
            Kind::I32 => KindView::I32,
            Kind::I64 => KindView::I64,
            Kind::U8 => KindView::U8,
            Kind::U16 => KindView::U16,
            Kind::U32 => KindView::U32,
            Kind::U64 => KindView::U64,
            Kind::Double => KindView::Double,
            Kind::Char => KindView::Char,
            Kind::Str => KindView::Str,
            Kind::Text => KindView::Text,
            Kind::Bytes => KindView::Bytes,
            Kind::Optional(k) => KindView::Optional(Box::new(k.view())),
            Kind::UnitStruct => KindView::UnitStruct,
            Kind::Newtype(k) => KindView::Newtype(Box::new(k.view())),
            Kind::Sequence(k) => KindView::Sequence(Box::new(k.view())),
            Kind::Record(fields) => KindView::Record(view_field_kinds(fields)),
            Kind::Enum => KindView::Enum,
            Kind::Mapping => KindView::Mapping,
            Kind::Any => KindView::Any,
        }
    }
}

} // verus!
