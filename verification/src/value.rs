//! The value protocol: the two capabilities by which a native value is
//! written to the stack and read back from it.

use crate::context::Context;
use crate::serialize::{
    decoding, depth, encoding, kind_depth, DuktapeDeserializer, DuktapeSerializer, Error, Fault,
};
use crate::slot::{SlotView, Tag};
use crate::value_model::{Kind, KindView, Value, ValueView};
use vstd::prelude::*;

verus! {

/// Why a value could not be read from the stack.
#[derive(Debug)]
pub enum PeekError {
    /// The property of this name could not be looked up.
    Prop(String),
    /// The bridge could not read the value.
    Serde(Error),
    /// The value is not of the dynamic type that was asked for.
    Type,
}

/// The mathematical value of a [`PeekError`].
pub ghost enum PeekFault {
    Prop(Seq<char>),
    Serde(Seq<char>),
    Type,
}

impl PeekFault {
    /// The fault as a line of text.
    pub open spec fn text(self) -> Seq<char> {
        match self {
            PeekFault::Prop(name) => "missing property "@ + name,
            PeekFault::Serde(text) => text,
            PeekFault::Type => "incorrect type"@,
        }
    }
}

impl PeekError {
    /// The mathematical value.
    pub open spec fn view(&self) -> PeekFault {
        match self {
            PeekError::Prop(name) => PeekFault::Prop(name@),
            PeekError::Serde(e) => PeekFault::Serde(e.text()),
            PeekError::Type => PeekFault::Type,
        }
    }

    /// The failure as a line of text.
    pub fn message(&self) -> (m: String)
        ensures
            m@ == self@.text(),
    {
        match self {
            PeekError::Prop(name) => {
                let mut m = "missing property ".to_owned();
                m.append(name.as_str());
                m
            },
            PeekError::Serde(e) => e.message(),
            PeekError::Type => "incorrect type".to_owned(),
        }
    }
}

impl From<Error> for PeekError {
    fn from(e: Error) -> (r: PeekError) {
        PeekError::Serde(e)
    }
}

impl vstd::std_specs::convert::FromSpecImpl<Error> for PeekError {
    open spec fn obeys_from_spec() -> bool {
        true
    }

    open spec fn from_spec(e: Error) -> PeekError {
        PeekError::Serde(e)
    }
}

/// The producer capability: a value that can be written to the stack.
pub trait PushValue: Sized {
    /// Whether the value can be written at all.
    open spec fn accepted(&self) -> bool {
        arbitrary()
    }

    /// The slot the value is written as.
    open spec fn slot(&self) -> SlotView {
        arbitrary()
    }

    /// The number of free slots that writing the value takes at most.
    open spec fn room(&self) -> nat {
        arbitrary()
    }

    /// Writes the value to the top of the stack and returns the absolute
    /// index of the slot.
    fn push_to(self, ctx: &mut Context) -> (idx: u32)
        requires
            old(ctx).wf(),
            self.accepted(),
            old(ctx).has_room(self.room() as int),
            old(ctx).has_room(1),
        ensures
            final(ctx).wf(),
            final(ctx)@ == old(ctx)@.push(self.slot()),
            final(ctx).ambient() == old(ctx).ambient(),
            idx == old(ctx)@.len(),
    ;
}

/// The consumer capability: a value that can be read from the stack.
pub trait PeekValue: Sized {
    /// Whether reading `slot` gives `res`.
    open spec fn reads(slot: SlotView, res: Result<Self, PeekError>) -> bool {
        arbitrary()
    }

    /// The number of free slots that reading takes at most.
    open spec fn room() -> nat {
        arbitrary()
    }

    /// Reads the value at `idx` and leaves the stack as it is.
    fn peek_at(ctx: &mut Context, idx: i32) -> (res: Result<Self, PeekError>)
        requires
            old(ctx).wf(),
            old(ctx).valid(idx as int),
            old(ctx).has_room(Self::room() as int),
        ensures
            final(ctx).wf(),
            final(ctx)@ == old(ctx)@,
            final(ctx).ambient() == old(ctx).ambient(),
            Self::reads(old(ctx).slot(idx as int), res),
    ;

    /// Reads the value at the top of the stack and, where that succeeds,
    /// removes it.
    fn pop(ctx: &mut Context) -> (res: Result<Self, PeekError>)
        requires
            old(ctx).wf(),
            old(ctx)@.len() > 0,
            old(ctx).has_room(Self::room() as int),
        ensures
            final(ctx).wf(),
            final(ctx).ambient() == old(ctx).ambient(),
            Self::reads(old(ctx)@.last(), res),
            res is Ok ==> final(ctx)@ == old(ctx)@.drop_last(),
            res is Err ==> final(ctx)@ == old(ctx)@,
    {
        let this = Self::peek_at(ctx, -1);
        if this.is_ok() {
            ctx.pop();
        }
        this
    }
}

/// A value that takes the structured bridge.
#[derive(Debug)]
pub struct SerdeValue<T>(pub T);

impl<'a> PushValue for SerdeValue<&'a Value> {
    open spec fn accepted(&self) -> bool {
        encoding(self.0@) is Some
    }

    open spec fn slot(&self) -> SlotView {
        encoding(self.0@).unwrap()
    }

    open spec fn room(&self) -> nat {
        depth(self.0@)
    }

    fn push_to(self, ctx: &mut Context) -> (idx: u32) {
        let idx = ctx.stack_len() as u32;
        let mut serializer = DuktapeSerializer::from_ctx(ctx);
        let _ = self.0.serialize(&mut serializer);
        idx
    }
}

impl SerdeValue<Value> {
    /// Reads the value at `idx` through the bridge as a value of `kind`, and
    /// leaves the stack as it is.
    pub fn peek_as(ctx: &mut Context, idx: i32, kind: &Kind) -> (res: Result<
        SerdeValue<Value>,
        PeekError,
    >)
        requires
            old(ctx).wf(),
            old(ctx).valid(idx as int),
            old(ctx).has_room(kind_depth(kind@) as int),
        ensures
            final(ctx).wf(),
            final(ctx)@ == old(ctx)@,
            final(ctx).ambient() == old(ctx).ambient(),
            match decoding(old(ctx).slot(idx as int), kind@) {
                Ok(v) => res matches Ok(r) && r.0@ == v,
                Err(f) => res matches Err(e) && e@ == PeekFault::Serde(f.text()),
            },
    {
        let mut deserializer = DuktapeDeserializer::from_ctx(ctx, idx);
        match deserializer.deserialize(kind) {
            Ok(v) => Ok(SerdeValue(v)),
            Err(e) => Err(PeekError::Serde(e)),
        }
    }
}

/// Whether reading a slot under `kind` gives `res`, where `same` tells
/// which native value a result stands for.
pub open spec fn reads_as<T>(
    slot: SlotView,
    kind: KindView,
    res: Result<T, PeekError>,
    same: spec_fn(T, ValueView) -> bool,
) -> bool {
    match decoding(slot, kind) {
        Ok(v) => res matches Ok(r) && same(r, v),
        Err(f) => res matches Err(e) && e@ == PeekFault::Serde(f.text()),
    }
}

impl PushValue for bool {
    open spec fn accepted(&self) -> bool {
        true
    }

    open spec fn slot(&self) -> SlotView {
        encoding(ValueView::Bool(*self)).unwrap()
    }

    open spec fn room(&self) -> nat {
        1
    }

    fn push_to(self, ctx: &mut Context) -> (idx: u32) {
        let value = Value::Bool(self);
        SerdeValue(&value).push_to(ctx)
    }
}

impl PeekValue for bool {
    open spec fn reads(slot: SlotView, res: Result<bool, PeekError>) -> bool {
        reads_as(slot, KindView::Bool, res, |r: bool, v: ValueView| v == ValueView::Bool(r))
    }

    open spec fn room() -> nat {
        0
    }

    fn peek_at(ctx: &mut Context, idx: i32) -> (res: Result<bool, PeekError>) {
        match SerdeValue::peek_as(ctx, idx, &Kind::Bool) {
            Ok(SerdeValue(Value::Bool(v))) => Ok(v),
            Ok(_) => Err(PeekError::Type),
            Err(e) => Err(e),
        }
    }
}

impl PushValue for u8 {
    open spec fn accepted(&self) -> bool {
        true
    }

    open spec fn slot(&self) -> SlotView {
        encoding(ValueView::U8(*self)).unwrap()
    }

    open spec fn room(&self) -> nat {
        1
    }

    fn push_to(self, ctx: &mut Context) -> (idx: u32) {
        let value = Value::U8(self);
        SerdeValue(&value).push_to(ctx)
    }
}

impl PeekValue for u8 {
    open spec fn reads(slot: SlotView, res: Result<u8, PeekError>) -> bool {
        reads_as(slot, KindView::U8, res, |r: u8, v: ValueView| v == ValueView::U8(r))
    }

    open spec fn room() -> nat {
        0
    }

    fn peek_at(ctx: &mut Context, idx: i32) -> (res: Result<u8, PeekError>) {
        match SerdeValue::peek_as(ctx, idx, &Kind::U8) {
            Ok(SerdeValue(Value::U8(v))) => Ok(v),
            Ok(_) => Err(PeekError::Type),
            Err(e) => Err(e),
        }
    }
}

impl PushValue for u16 {
    open spec fn accepted(&self) -> bool {
        true
    }

    open spec fn slot(&self) -> SlotView {
        encoding(ValueView::U16(*self)).unwrap()
    }

    open spec fn room(&self) -> nat {
        1
    }

    fn push_to(self, ctx: &mut Context) -> (idx: u32) {
        let value = Value::U16(self);
        SerdeValue(&value).push_to(ctx)
    }
}

impl PeekValue for u16 {
    open spec fn reads(slot: SlotView, res: Result<u16, PeekError>) -> bool {
        reads_as(slot, KindView::U16, res, |r: u16, v: ValueView| v == ValueView::U16(r))
    }

    open spec fn room() -> nat {
        0
    }

    fn peek_at(ctx: &mut Context, idx: i32) -> (res: Result<u16, PeekError>) {
        match SerdeValue::peek_as(ctx, idx, &Kind::U16) {
            Ok(SerdeValue(Value::U16(v))) => Ok(v),
            Ok(_) => Err(PeekError::Type),
            Err(e) => Err(e),
        }
    }
}

impl PushValue for u32 {
    open spec fn accepted(&self) -> bool {
        true
    }

    open spec fn slot(&self) -> SlotView {
        encoding(ValueView::U32(*self)).unwrap()
    }

    open spec fn room(&self) -> nat {
        1
    }

    fn push_to(self, ctx: &mut Context) -> (idx: u32) {
        let value = Value::U32(self);
        SerdeValue(&value).push_to(ctx)
    }
}

impl PeekValue for u32 {
    open spec fn reads(slot: SlotView, res: Result<u32, PeekError>) -> bool {
        reads_as(slot, KindView::U32, res, |r: u32, v: ValueView| v == ValueView::U32(r))
    }

    open spec fn room() -> nat {
        0
    }

    fn peek_at(ctx: &mut Context, idx: i32) -> (res: Result<u32, PeekError>) {
        match SerdeValue::peek_as(ctx, idx, &Kind::U32) {
            Ok(SerdeValue(Value::U32(v))) => Ok(v),
            Ok(_) => Err(PeekError::Type),
            Err(e) => Err(e),
        }
    }
}

impl PushValue for i8 {
    open spec fn accepted(&self) -> bool {
        true
    }

    open spec fn slot(&self) -> SlotView {
        encoding(ValueView::I8(*self)).unwrap()
    }

    open spec fn room(&self) -> nat {
        1
    }

    fn push_to(self, ctx: &mut Context) -> (idx: u32) {
        let value = Value::I8(self);
        SerdeValue(&value).push_to(ctx)
    }
}

impl PeekValue for i8 {
    open spec fn reads(slot: SlotView, res: Result<i8, PeekError>) -> bool {
        reads_as(slot, KindView::I8, res, |r: i8, v: ValueView| v == ValueView::I8(r))
    }

    open spec fn room() -> nat {
        0
    }

    fn peek_at(ctx: &mut Context, idx: i32) -> (res: Result<i8, PeekError>) {
        match SerdeValue::peek_as(ctx, idx, &Kind::I8) {
            Ok(SerdeValue(Value::I8(v))) => Ok(v),
            Ok(_) => Err(PeekError::Type),
            Err(e) => Err(e),
        }
    }
}

impl PushValue for i16 {
    open spec fn accepted(&self) -> bool {
        true
    }

    open spec fn slot(&self) -> SlotView {
        encoding(ValueView::I16(*self)).unwrap()
    }

    open spec fn room(&self) -> nat {
        1
    }

    fn push_to(self, ctx: &mut Context) -> (idx: u32) {
        let value = Value::I16(self);
        SerdeValue(&value).push_to(ctx)
    }
}

impl PeekValue for i16 {
    open spec fn reads(slot: SlotView, res: Result<i16, PeekError>) -> bool {
        reads_as(slot, KindView::I16, res, |r: i16, v: ValueView| v == ValueView::I16(r))
    }

    open spec fn room() -> nat {
        0
    }

    fn peek_at(ctx: &mut Context, idx: i32) -> (res: Result<i16, PeekError>) {
        match SerdeValue::peek_as(ctx, idx, &Kind::I16) {
            Ok(SerdeValue(Value::I16(v))) => Ok(v),
            Ok(_) => Err(PeekError::Type),
            Err(e) => Err(e),
        }
    }
}

impl PushValue for i32 {
    open spec fn accepted(&self) -> bool {
        true
    }

    open spec fn slot(&self) -> SlotView {
        encoding(ValueView::I32(*self)).unwrap()
    }

    open spec fn room(&self) -> nat {
        1
    }

    fn push_to(self, ctx: &mut Context) -> (idx: u32) {
        let value = Value::I32(self);
        SerdeValue(&value).push_to(ctx)
    }
}

impl PeekValue for i32 {
    open spec fn reads(slot: SlotView, res: Result<i32, PeekError>) -> bool {
        reads_as(slot, KindView::I32, res, |r: i32, v: ValueView| v == ValueView::I32(r))
    }

    open spec fn room() -> nat {
        0
    }

    fn peek_at(ctx: &mut Context, idx: i32) -> (res: Result<i32, PeekError>) {
        match SerdeValue::peek_as(ctx, idx, &Kind::I32) {
            Ok(SerdeValue(Value::I32(v))) => Ok(v),
            Ok(_) => Err(PeekError::Type),
            Err(e) => Err(e),
        }
    }
}

impl PushValue for String {
    open spec fn accepted(&self) -> bool {
        true
    }

    open spec fn slot(&self) -> SlotView {
        SlotView::Text(self@)
    }

    open spec fn room(&self) -> nat {
        1
    }

    fn push_to(self, ctx: &mut Context) -> (idx: u32) {
        let value = Value::Text(self);
        SerdeValue(&value).push_to(ctx)
    }
}

impl PeekValue for String {
    open spec fn reads(slot: SlotView, res: Result<String, PeekError>) -> bool {
        reads_as(slot, KindView::Text, res, |r: String, v: ValueView| v == ValueView::Text(r@))
    }

    open spec fn room() -> nat {
        0
    }

    fn peek_at(ctx: &mut Context, idx: i32) -> (res: Result<String, PeekError>) {
        match SerdeValue::peek_as(ctx, idx, &Kind::Text) {
            Ok(SerdeValue(Value::Text(v))) => Ok(v),
            Ok(_) => Err(PeekError::Type),
            Err(e) => Err(e),
        }
    }
}

impl PushValue for () {
    open spec fn accepted(&self) -> bool {
        true
    }

    open spec fn slot(&self) -> SlotView {
        SlotView::Null
    }

    open spec fn room(&self) -> nat {
        1
    }

    fn push_to(self, ctx: &mut Context) -> (idx: u32) {
        let value = Value::Unit;
        SerdeValue(&value).push_to(ctx)
    }
}

impl PeekValue for () {
    open spec fn reads(slot: SlotView, res: Result<(), PeekError>) -> bool {
        res is Ok
    }

    open spec fn room() -> nat {
        0
    }

    fn peek_at(ctx: &mut Context, idx: i32) -> (res: Result<(), PeekError>) {
        match SerdeValue::peek_as(ctx, idx, &Kind::Unit) {
            Ok(_) => Ok(()),
            Err(e) => Err(e),
        }
    }
}

impl<T: PushValue> PushValue for Option<T> {
    open spec fn accepted(&self) -> bool {
        match self {
            Some(v) => v.accepted(),
            None => true,
        }
    }

    open spec fn slot(&self) -> SlotView {
        match self {
            Some(v) => v.slot(),
            None => SlotView::Undefined,
        }
    }

    open spec fn room(&self) -> nat {
        match self {
            Some(v) => v.room(),
            None => 1,
        }
    }

    fn push_to(self, ctx: &mut Context) -> (idx: u32) {
        match self {
            Some(v) => v.push_to(ctx),
            None => {
                let idx = ctx.stack_len() as u32;
                ctx.push_undefined();
                idx
            },
        }
    }
}

impl<T: PeekValue> PeekValue for Option<T> {
    open spec fn reads(slot: SlotView, res: Result<Option<T>, PeekError>) -> bool {
        if slot.is_absent() {
            res matches Ok(None)
        } else {
            match res {
                Ok(Some(v)) => T::reads(slot, Ok(v)),
                Ok(None) => false,
                Err(e) => T::reads(slot, Err(e)),
            }
        }
    }

    open spec fn room() -> nat {
        T::room()
    }

    fn peek_at(ctx: &mut Context, idx: i32) -> (res: Result<Option<T>, PeekError>) {
        match ctx.tag_at(idx) {
            Tag::Null => Ok(None),
            Tag::Undefined => Ok(None),
            _ => match T::peek_at(ctx, idx) {
                Ok(v) => Ok(Some(v)),
                Err(e) => Err(e),
            },
        }
    }
}

impl<'a, T: PushValue + Copy> PushValue for &'a T {
    open spec fn accepted(&self) -> bool {
        (**self).accepted()
    }

    open spec fn slot(&self) -> SlotView {
        (**self).slot()
    }

    open spec fn room(&self) -> nat {
        (**self).room()
    }

    fn push_to(self, ctx: &mut Context) -> (idx: u32) {
        (*self).push_to(ctx)
    }
}

impl<'a> PushValue for &'a [u8] {
    open spec fn accepted(&self) -> bool {
        true
    }

    open spec fn slot(&self) -> SlotView {
        SlotView::Buffer(self@)
    }

    open spec fn room(&self) -> nat {
        1
    }

    fn push_to(self, ctx: &mut Context) -> (idx: u32) {
        let idx = ctx.stack_len() as u32;
        ctx.push_buffer(self);
        idx
    }
}

impl PeekValue for Vec<u8> {
    open spec fn reads(slot: SlotView, res: Result<Vec<u8>, PeekError>) -> bool {
        match slot {
            SlotView::Buffer(bytes) => res matches Ok(r) && r@ == bytes,
            _ => res matches Err(e) && e is Type,
        }
    }

    open spec fn room() -> nat {
        0
    }

    fn peek_at(ctx: &mut Context, idx: i32) -> (res: Result<Vec<u8>, PeekError>) {
        match ctx.tag_at(idx) {
            Tag::Buffer => Ok(ctx.get_buffer(idx)),
            _ => Err(PeekError::Type),
        }
    }
}

impl Context {
    /// Writes `value` to the top of the stack and returns the absolute index
    /// of its slot.
    pub fn push<T: PushValue>(&mut self, value: T) -> (idx: u32)
        requires
            old(self).wf(),
            value.accepted(),
            old(self).has_room(value.room() as int),
            old(self).has_room(1),
        ensures
            final(self).wf(),
            final(self)@ == old(self)@.push(value.slot()),
            final(self).ambient() == old(self).ambient(),
            idx == old(self)@.len(),
    {
        value.push_to(self)
    }

    /// Reads the value at `idx` and leaves the stack as it is.
    pub fn peek<T: PeekValue>(&mut self, idx: i32) -> (res: Result<T, PeekError>)
        requires
            old(self).wf(),
            old(self).valid(idx as int),
            old(self).has_room(T::room() as int),
        ensures
            final(self).wf(),
            final(self)@ == old(self)@,
            final(self).ambient() == old(self).ambient(),
            T::reads(old(self).slot(idx as int), res),
    {
        T::peek_at(self, idx)
    }

    /// Reads the value at the top of the stack and, where that succeeds,
    /// removes it.
    pub fn pop_value<T: PeekValue>(&mut self) -> (res: Result<T, PeekError>)
        requires
            old(self).wf(),
            old(self)@.len() > 0,
            old(self).has_room(T::room() as int),
        ensures
            final(self).wf(),
            final(self).ambient() == old(self).ambient(),
            T::reads(old(self)@.last(), res),
            res is Ok ==> final(self)@ == old(self)@.drop_last(),
            res is Err ==> final(self)@ == old(self)@,
    {
        T::pop(self)
    }
}

} // verus!
