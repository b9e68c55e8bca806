//! The structured bridge: writes native values of the structured data model
//! to the value stack and reads them back.
//!
//! A value is written as exactly one slot. Records become objects, sequences
//! become arrays, and what the protocol does not carry (64-bit integers, byte
//! strings, enum variants, maps) is refused with [`Error::unsupported`].

use crate::context::{clamp_int, clamp_uint, Context};
use crate::slot::{bind_key, find_key, has_key, store_at, SlotView, Tag};
use crate::value_model::{
    view_field_kinds, view_fields, view_values, Field, FieldKind, FieldKindView, FieldView, Kind,
    KindView, Value, ValueView,
};
use vstd::string::StrSliceExecFns;
use vstd::prelude::*;
use vstd::utf8::encode_utf8;

verus! {

/// A failure of the bridge, with its message.
#[derive(Debug, Clone)]
pub enum Error {
    Message(String),
}

impl Error {
    /// The message, as a sequence of characters.
    pub open spec fn text(&self) -> Seq<char> {
        match self {
            Error::Message(m) => m@,
        }
    }

    /// The failure reported for what the protocol does not carry.
    pub fn unsupported() -> (e: Error)
        ensures
            e.text() == "not implemented"@,
    {
        Error::Message("not implemented".to_owned())
    }

    /// The failure reported when a record lacks the declared field `name`.
    pub fn incorrect_field(name: &str) -> (e: Error)
        ensures
            e.text() == "incorrect field "@ + name@,
    {
        let mut text = "incorrect field ".to_owned();
        text.append(name);
        Error::Message(text)
    }

    /// The failure reported when a value has another dynamic type than the
    /// one asked for.
    pub fn incorrect_type() -> (e: Error)
        ensures
            e.text() == "incorrect type"@,
    {
        Error::Message("incorrect type".to_owned())
    }

    /// A copy of the message.
    pub fn message(&self) -> (m: String)
        ensures
            m@ == self.text(),
    {
        match self {
            Error::Message(m) => m.clone(),
        }
    }
}

impl PartialEq for Error {
    fn eq(&self, other: &Error) -> (r: bool) {
        match self {
            Error::Message(a) => match other {
                Error::Message(b) => *a == *b,
            },
        }
    }
}

impl vstd::std_specs::cmp::PartialEqSpecImpl for Error {
    open spec fn obeys_eq_spec() -> bool {
        true
    }

    open spec fn eq_spec(&self, other: &Error) -> bool {
        self.text() == other.text()
    }
}

/// The slot a value is written as, or `None` where the value holds
/// something the protocol does not carry.
pub open spec fn encoding(v: ValueView) -> Option<SlotView>
    decreases v, 0nat,
{
    match v {
        ValueView::Unit => Some(SlotView::Null),
        ValueView::UnitStruct => Some(SlotView::Null),
        ValueView::Bool(b) => Some(SlotView::Boolean(b)),
        ValueView::I8(n) => Some(SlotView::Number(n as int)),
        ValueView::I16(n) => Some(SlotView::Number(n as int)),
        ValueView::I32(n) => Some(SlotView::Number(n as int)),
        ValueView::U8(n) => Some(SlotView::Number(n as int)),
        ValueView::U16(n) => Some(SlotView::Number(n as int)),
        ValueView::U32(n) => Some(SlotView::Number(n as int)),
        ValueView::Whole(n) => Some(SlotView::Number(n as int)),
        ValueView::Double(bits) => Some(SlotView::Double(bits)),
        ValueView::Char(c) => Some(SlotView::Text(seq![c])),
        ValueView::Text(s) => Some(SlotView::Text(s)),
        ValueView::Absent => Some(SlotView::Undefined),
        ValueView::Present(inner) => encoding(*inner),
        ValueView::Newtype(inner) => encoding(*inner),
        ValueView::Sequence(items) => match encoded_items(items, items.len() as int) {
            Some(slots) => if items.len() <= u32::MAX {
                Some(SlotView::Array(slots))
            } else {
                None
            },
            None => None,
        },
        ValueView::Record(fields) => match encoded_fields(fields, fields.len() as int) {
            Some(props) => Some(SlotView::Object(props)),
            None => None,
        },
        ValueView::I64(_) => None,
        ValueView::U64(_) => None,
        ValueView::Bytes(_) => None,
        ValueView::Variant(_) => None,
        ValueView::Mapping(_) => None,
    }
}

/// The slots the first `n` items are written as, in order, or `None` where
/// one of them is refused.
pub open spec fn encoded_items(items: Seq<ValueView>, n: int) -> Option<Seq<SlotView>>
    decreases items, n,
{
    if n <= 0 || n > items.len() {
        Some(Seq::empty())
    } else {
        match (encoded_items(items, n - 1), encoding(items[n - 1])) {
            (Some(slots), Some(slot)) => Some(slots.push(slot)),
            _ => None,
        }
    }
}

/// The properties an object holds after the first `n` fields were bound to
/// it in order, each under its name, or `None` where one of them is refused.
pub open spec fn encoded_fields(fields: Seq<FieldView>, n: int) -> Option<
    Seq<(Seq<u8>, SlotView)>,
>
    decreases fields, n,
{
    if n <= 0 || n > fields.len() {
        Some(Seq::empty())
    } else {
        match (encoded_fields(fields, n - 1), encoding(fields[n - 1].value)) {
            (Some(props), Some(slot)) => Some(
                bind_key(props, encode_utf8(fields[n - 1].name), slot),
            ),
            _ => None,
        }
    }
}

/// The number of free slots that writing a value takes at most: one for the
/// value, and for a record or a sequence one more than its deepest part.
pub open spec fn depth(v: ValueView) -> nat
    decreases v, 0nat,
{
    match v {
        ValueView::Present(inner) => depth(*inner),
        ValueView::Newtype(inner) => depth(*inner),
        ValueView::Sequence(items) => 1 + deepest_item(items, items.len() as int),
        ValueView::Record(fields) => 1 + deepest_field(fields, fields.len() as int),
        _ => 1,
    }
}

/// The largest depth among the first `n` items.
pub open spec fn deepest_item(items: Seq<ValueView>, n: int) -> nat
    decreases items, n,
{
    if n <= 0 || n > items.len() {
        0
    } else {
        let rest = deepest_item(items, n - 1);
        let last = depth(items[n - 1]);
        if last > rest {
            last
        } else {
            rest
        }
    }
}

/// The largest depth among the first `n` fields.
pub open spec fn deepest_field(fields: Seq<FieldView>, n: int) -> nat
    decreases fields, n,
{
    if n <= 0 || n > fields.len() {
        0
    } else {
        let rest = deepest_field(fields, n - 1);
        let last = depth(fields[n - 1].value);
        if last > rest {
            last
        } else {
            rest
        }
    }
}

/// Every one of the first `n` items is at most as deep as the deepest.
pub proof fn lemma_deepest_item(items: Seq<ValueView>, n: int, i: int)
    requires
        0 <= i < n <= items.len(),
    ensures
        depth(items[i]) <= deepest_item(items, n),
    decreases n,
{
    if i < n - 1 {
        lemma_deepest_item(items, n - 1, i);
    }
}

/// Every one of the first `n` fields is at most as deep as the deepest.
pub proof fn lemma_deepest_field(fields: Seq<FieldView>, n: int, i: int)
    requires
        0 <= i < n <= fields.len(),
    ensures
        depth(fields[i].value) <= deepest_field(fields, n),
    decreases n,
{
    if i < n - 1 {
        lemma_deepest_field(fields, n - 1, i);
    }
}

/// Where a prefix of the items cannot be written, no longer prefix can.
pub proof fn lemma_refused_items(items: Seq<ValueView>, i: int, n: int)
    requires
        0 <= i <= n <= items.len(),
        encoded_items(items, i) is None,
    ensures
        encoded_items(items, n) is None,
    decreases n,
{
    if i < n {
        lemma_refused_items(items, i, n - 1);
    }
}

/// Where a prefix of the fields cannot be written, no longer prefix can.
pub proof fn lemma_refused_fields(fields: Seq<FieldView>, i: int, n: int)
    requires
        0 <= i <= n <= fields.len(),
        encoded_fields(fields, i) is None,
    ensures
        encoded_fields(fields, n) is None,
    decreases n,
{
    if i < n {
        lemma_refused_fields(fields, i, n - 1);
    }
}

/// Writes values to a stack, one event of the structured data model at a
/// time.
#[derive(Debug)]
pub struct DuktapeSerializer<'ctx> {
    pub ctx: &'ctx mut Context,
    /// The absolute indices of the objects and arrays under construction,
    /// innermost last.
    pub objects: Vec<i32>,
}

/// The state of a sequence under construction.
#[derive(Debug)]
pub struct DuktapeSeqSerializer {
    /// The absolute index of the array.
    pub obj_id: i32,
    /// The index the next element is stored at.
    pub array_idx: u32,
}

/// The text of a single character; `char::to_string` of the standard
/// library, which yields the string made of that character alone.
#[verifier::external_body]
fn char_text(c: char) -> (s: String)
    ensures
        s@ == seq![c],
{
    c.to_string()
}

impl<'ctx> DuktapeSerializer<'ctx> {
    /// A serializer that writes to `ctx`, with nothing under construction.
    pub fn from_ctx(ctx: &'ctx mut Context) -> (s: DuktapeSerializer<'ctx>)
        ensures
            *s.ctx == *old(ctx),
            *final(s.ctx) == *final(ctx),
            s.objects@ == Seq::<i32>::empty(),
    {
        DuktapeSerializer { ctx, objects: Vec::new() }
    }

    /// Whether the serializer is as `before` was but for `slot` on top of
    /// the stack.
    pub open spec fn pushed(&self, before: &Self, slot: SlotView) -> bool {
        &&& self.ctx.wf()
        &&& self.ctx@ == before.ctx@.push(slot)
        &&& self.ctx.ambient() == before.ctx.ambient()
        &&& self.objects@ == before.objects@
    }

    /// Whether the serializer is as `before` was but for what a refused
    /// value left behind: slots above the old stack, and entries above the
    /// old list of objects under construction.
    pub open spec fn extends(&self, before: &Self) -> bool {
        &&& self.ctx.wf()
        &&& self.ctx@.len() >= before.ctx@.len()
        &&& self.ctx@.subrange(0, before.ctx@.len() as int) == before.ctx@
        &&& self.ctx.ambient() == before.ctx.ambient()
        &&& self.objects@.len() >= before.objects@.len()
        &&& self.objects@.subrange(0, before.objects@.len() as int) == before.objects@
    }

    /// Writes a boolean.
    pub fn serialize_bool(&mut self, v: bool) -> (res: Result<(), Error>)
        requires
            old(self).ctx.wf(),
            old(self).ctx.has_room(1),
        ensures
            *final(final(self).ctx) == *final(old(self).ctx),
            res is Ok,
            final(self).pushed(old(self), SlotView::Boolean(v)),
    {
        self.ctx.push_bool(v);
        Ok(())
    }

    /// Writes an 8-bit signed integer as a number.
    pub fn serialize_i8(&mut self, v: i8) -> (res: Result<(), Error>)
        requires
            old(self).ctx.wf(),
            old(self).ctx.has_room(1),
        ensures
            *final(final(self).ctx) == *final(old(self).ctx),
            res is Ok,
            final(self).pushed(old(self), SlotView::Number(v as int)),
    {
        self.ctx.push_int(v as i32);
        Ok(())
    }

    /// Writes an 8-bit unsigned integer as a number.
    pub fn serialize_u8(&mut self, v: u8) -> (res: Result<(), Error>)
        requires
            old(self).ctx.wf(),
            old(self).ctx.has_room(1),
        ensures
            *final(final(self).ctx) == *final(old(self).ctx),
            res is Ok,
            final(self).pushed(old(self), SlotView::Number(v as int)),
    {
        self.ctx.push_uint(v as u32);
        Ok(())
    }

    /// Writes a 16-bit signed integer as a number.
    pub fn serialize_i16(&mut self, v: i16) -> (res: Result<(), Error>)
        requires
            old(self).ctx.wf(),
            old(self).ctx.has_room(1),
        ensures
            *final(final(self).ctx) == *final(old(self).ctx),
            res is Ok,
            final(self).pushed(old(self), SlotView::Number(v as int)),
    {
        self.ctx.push_int(v as i32);
        Ok(())
    }

    /// Writes a 16-bit unsigned integer as a number.
    pub fn serialize_u16(&mut self, v: u16) -> (res: Result<(), Error>)
        requires
            old(self).ctx.wf(),
            old(self).ctx.has_room(1),
        ensures
            *final(final(self).ctx) == *final(old(self).ctx),
            res is Ok,
            final(self).pushed(old(self), SlotView::Number(v as int)),
    {
        self.ctx.push_uint(v as u32);
        Ok(())
    }

    /// Writes a 32-bit signed integer as a number.
    pub fn serialize_i32(&mut self, v: i32) -> (res: Result<(), Error>)
        requires
            old(self).ctx.wf(),
            old(self).ctx.has_room(1),
        ensures
            *final(final(self).ctx) == *final(old(self).ctx),
            res is Ok,
            final(self).pushed(old(self), SlotView::Number(v as int)),
    {
        self.ctx.push_int(v);
        Ok(())
    }

    /// Writes a 32-bit unsigned integer as a number.
    pub fn serialize_u32(&mut self, v: u32) -> (res: Result<(), Error>)
        requires
            old(self).ctx.wf(),
            old(self).ctx.has_room(1),
        ensures
            *final(final(self).ctx) == *final(old(self).ctx),
            res is Ok,
            final(self).pushed(old(self), SlotView::Number(v as int)),
    {
        self.ctx.push_uint(v);
        Ok(())
    }

    /// Refuses a 64-bit signed integer: a number cannot hold every one.
    pub fn serialize_i64(&mut self, _v: i64) -> (res: Result<(), Error>)
        ensures
            *final(self) == *old(self),
            res matches Err(e) && e.text() == "not implemented"@,
    {
        Err(Error::unsupported())
    }

    /// Refuses a 64-bit unsigned integer: a number cannot hold every one.
    pub fn serialize_u64(&mut self, _v: u64) -> (res: Result<(), Error>)
        ensures
            *final(self) == *old(self),
            res matches Err(e) && e.text() == "not implemented"@,
    {
        Err(Error::unsupported())
    }

    /// Writes a number of double precision whose value is the integer `v`
    /// as that integer.
    pub fn serialize_whole(&mut self, v: i64) -> (res: Result<(), Error>)
        requires
            old(self).ctx.wf(),
            old(self).ctx.has_room(1),
        ensures
            *final(final(self).ctx) == *final(old(self).ctx),
            res is Ok,
            final(self).pushed(old(self), SlotView::Number(v as int)),
    {
        self.ctx.push_slot(crate::slot::Slot::Number(v));
        Ok(())
    }

    /// Writes a number of double precision by its bits.
    pub fn serialize_double(&mut self, bits: u64) -> (res: Result<(), Error>)
        requires
            old(self).ctx.wf(),
            old(self).ctx.has_room(1),
        ensures
            *final(final(self).ctx) == *final(old(self).ctx),
            res is Ok,
            final(self).pushed(old(self), SlotView::Double(bits)),
    {
        self.ctx.push_double_bits(bits);
        Ok(())
    }

    /// Writes a character as the string made of it alone.
    pub fn serialize_char(&mut self, v: char) -> (res: Result<(), Error>)
        requires
            old(self).ctx.wf(),
            old(self).ctx.has_room(1),
        ensures
            *final(final(self).ctx) == *final(old(self).ctx),
            res is Ok,
            final(self).pushed(old(self), SlotView::Text(seq![v])),
    {
        let text = char_text(v);
        self.serialize_str(text.as_str())
    }

    /// Writes a string.
    pub fn serialize_str(&mut self, v: &str) -> (res: Result<(), Error>)
        requires
            old(self).ctx.wf(),
            old(self).ctx.has_room(1),
        ensures
            *final(final(self).ctx) == *final(old(self).ctx),
            res is Ok,
            final(self).pushed(old(self), SlotView::Text(v@)),
    {
        self.ctx.push_string(v);
        Ok(())
    }

    /// Refuses a byte string: raw buffers take the fast path outside the
    /// bridge.
    pub fn serialize_bytes(&mut self, _v: &[u8]) -> (res: Result<(), Error>)
        ensures
            *final(self) == *old(self),
            res matches Err(e) && e.text() == "not implemented"@,
    {
        Err(Error::unsupported())
    }

    /// Writes an absent optional value as `undefined`.
    pub fn serialize_none(&mut self) -> (res: Result<(), Error>)
        requires
            old(self).ctx.wf(),
            old(self).ctx.has_room(1),
        ensures
            *final(final(self).ctx) == *final(old(self).ctx),
            res is Ok,
            final(self).pushed(old(self), SlotView::Undefined),
    {
        self.ctx.push_undefined();
        Ok(())
    }

    /// Writes a present optional value as the value itself.
    pub fn serialize_some(&mut self, value: &Value) -> (res: Result<(), Error>)
        requires
            old(self).ctx.wf(),
            old(self).ctx.has_room(depth(value@) as int),
        ensures
            *final(final(self).ctx) == *final(old(self).ctx),
            res is Ok <==> encoding(value@) is Some,
            res is Ok ==> final(self).pushed(old(self), encoding(value@).unwrap()),
            res matches Err(e) ==> e.text() == "not implemented"@ && final(self).extends(old(self)),
        decreases value, 1nat,
    {
        value.serialize(self)
    }

    /// Writes the empty value as `null`.
    pub fn serialize_unit(&mut self) -> (res: Result<(), Error>)
        requires
            old(self).ctx.wf(),
            old(self).ctx.has_room(1),
        ensures
            *final(final(self).ctx) == *final(old(self).ctx),
            res is Ok,
            final(self).pushed(old(self), SlotView::Null),
    {
        self.ctx.push_null();
        Ok(())
    }

    /// Writes a struct without fields as the empty value.
    pub fn serialize_unit_struct(&mut self) -> (res: Result<(), Error>)
        requires
            old(self).ctx.wf(),
            old(self).ctx.has_room(1),
        ensures
            *final(final(self).ctx) == *final(old(self).ctx),
            res is Ok,
            final(self).pushed(old(self), SlotView::Null),
    {
        self.serialize_unit()
    }

    /// Refuses a variant of an enum, with or without data.
    pub fn serialize_variant(&mut self, _variant: &str) -> (res: Result<(), Error>)
        ensures
            *final(self) == *old(self),
            res matches Err(e) && e.text() == "not implemented"@,
    {
        Err(Error::unsupported())
    }

    /// Writes a struct that wraps one value as that value.
    pub fn serialize_newtype_struct(&mut self, value: &Value) -> (res: Result<(), Error>)
        requires
            old(self).ctx.wf(),
            old(self).ctx.has_room(depth(value@) as int),
        ensures
            *final(final(self).ctx) == *final(old(self).ctx),
            res is Ok <==> encoding(value@) is Some,
            res is Ok ==> final(self).pushed(old(self), encoding(value@).unwrap()),
            res matches Err(e) ==> e.text() == "not implemented"@ && final(self).extends(old(self)),
        decreases value, 1nat,
    {
        value.serialize(self)
    }

    /// Refuses a struct of unnamed fields.
    pub fn serialize_tuple_struct(&mut self, _len: usize) -> (res: Result<(), Error>)
        ensures
            *final(self) == *old(self),
            res matches Err(e) && e.text() == "not implemented"@,
    {
        Err(Error::unsupported())
    }

    /// Refuses a map.
    pub fn serialize_map(&mut self, _len: Option<usize>) -> (res: Result<(), Error>)
        ensures
            *final(self) == *old(self),
            res matches Err(e) && e.text() == "not implemented"@,
    {
        Err(Error::unsupported())
    }

    /// Starts a sequence: allocates an empty array and notes it as under
    /// construction.
    pub fn serialize_seq(&mut self, _len: Option<usize>) -> (res: Result<
        DuktapeSeqSerializer,
        Error,
    >)
        requires
            old(self).ctx.wf(),
            old(self).ctx.has_room(1),
        ensures
            *final(final(self).ctx) == *final(old(self).ctx),
            final(self).ctx.wf(),
            final(self).ctx@ == old(self).ctx@.push(SlotView::Array(Seq::empty())),
            final(self).ctx.ambient() == old(self).ctx.ambient(),
            final(self).objects@ == old(self).objects@.push(old(self).ctx@.len() as i32),
            res matches Ok(seq) && seq.obj_id == old(self).ctx@.len() && seq.array_idx == 0,
    {
        let obj_id = self.ctx.push_array();
        self.objects.push(obj_id);
        Ok(DuktapeSeqSerializer { obj_id, array_idx: 0 })
    }

    /// Starts a tuple: a sequence of known length.
    pub fn serialize_tuple(&mut self, len: usize) -> (res: Result<DuktapeSeqSerializer, Error>)
        requires
            old(self).ctx.wf(),
            old(self).ctx.has_room(1),
        ensures
            *final(final(self).ctx) == *final(old(self).ctx),
            final(self).ctx.wf(),
            final(self).ctx@ == old(self).ctx@.push(SlotView::Array(Seq::empty())),
            final(self).ctx.ambient() == old(self).ctx.ambient(),
            final(self).objects@ == old(self).objects@.push(old(self).ctx@.len() as i32),
            res matches Ok(seq) && seq.obj_id == old(self).ctx@.len() && seq.array_idx == 0,
    {
        self.serialize_seq(Some(len))
    }

    /// Starts a record: allocates an empty object and notes it as under
    /// construction.
    pub fn serialize_struct(&mut self, _len: usize) -> (res: Result<(), Error>)
        requires
            old(self).ctx.wf(),
            old(self).ctx.has_room(1),
        ensures
            *final(final(self).ctx) == *final(old(self).ctx),
            final(self).ctx.wf(),
            final(self).ctx@ == old(self).ctx@.push(SlotView::Object(Seq::empty())),
            final(self).ctx.ambient() == old(self).ctx.ambient(),
            final(self).objects@ == old(self).objects@.push(old(self).ctx@.len() as i32),
            res is Ok,
    {
        let obj_id = self.ctx.push_object();
        self.objects.push(obj_id);
        Ok(())
    }

    /// Writes one field of the record under construction: the value, then
    /// its binding under `key` on the innermost object.
    pub fn serialize_field(&mut self, key: &str, value: &Value) -> (res: Result<(), Error>)
        requires
            old(self).ctx.wf(),
            old(self).ctx.has_room(depth(value@) as int),
            old(self).objects@.len() > 0,
            0 <= old(self).objects@.last() < old(self).ctx@.len(),
            old(self).ctx@[old(self).objects@.last() as int] is Object,
        ensures
            *final(final(self).ctx) == *final(old(self).ctx),
            res is Ok <==> encoding(value@) is Some,
            res is Ok ==> {
                let at = old(self).objects@.last() as int;
                &&& final(self).ctx.wf()
                &&& final(self).ctx@ == old(self).ctx@.update(
                    at,
                    SlotView::Object(
                        bind_key(
                            old(self).ctx@[at]->Object_0,
                            encode_utf8(key@),
                            encoding(value@).unwrap(),
                        ),
                    ),
                )
                &&& final(self).ctx.ambient() == old(self).ctx.ambient()
                &&& final(self).objects@ == old(self).objects@
            },
            res matches Err(e) ==> e.text() == "not implemented"@ && final(self).extends(old(self)),
        decreases value, 1nat,
    {
        let ghost before = self.ctx@;
        match value.serialize(self) {
            Ok(()) => {},
            Err(e) => {
                return Err(e);
            },
        }
        let obj_id = self.objects[self.objects.len() - 1];
        self.ctx.put_prop_string(obj_id, key);
        assert(self.ctx@ =~= before.update(
            obj_id as int,
            SlotView::Object(
                bind_key(before[obj_id as int]->Object_0, encode_utf8(key@), encoding(value@).unwrap()),
            ),
        ));
        Ok(())
    }

    /// Writes one element of the sequence under construction: the value,
    /// then its place at the next index of the array.
    pub fn serialize_element(&mut self, seq: &mut DuktapeSeqSerializer, value: &Value) -> (res:
        Result<(), Error>)
        requires
            old(self).ctx.wf(),
            old(self).ctx.has_room(depth(value@) as int),
            0 <= old(seq).obj_id < old(self).ctx@.len(),
            old(self).ctx@[old(seq).obj_id as int] is Array,
            old(seq).array_idx < u32::MAX,
        ensures
            *final(final(self).ctx) == *final(old(self).ctx),
            final(seq).obj_id == old(seq).obj_id,
            res is Ok <==> encoding(value@) is Some,
            res is Ok ==> {
                let at = old(seq).obj_id as int;
                &&& final(self).ctx.wf()
                &&& final(self).ctx@ == old(self).ctx@.update(
                    at,
                    SlotView::Array(
                        store_at(
                            old(self).ctx@[at]->Array_0,
                            old(seq).array_idx as int,
                            encoding(value@).unwrap(),
                        ),
                    ),
                )
                &&& final(self).ctx.ambient() == old(self).ctx.ambient()
                &&& final(self).objects@ == old(self).objects@
                &&& final(seq).array_idx == old(seq).array_idx + 1
            },
            res matches Err(e) ==> e.text() == "not implemented"@ && final(self).extends(old(self)),
        decreases value, 1nat,
    {
        let ghost before = self.ctx@;
        match value.serialize(self) {
            Ok(()) => {},
            Err(e) => {
                return Err(e);
            },
        }
        self.ctx.put_prop_index(seq.obj_id, seq.array_idx);
        assert(self.ctx@ =~= before.update(
            seq.obj_id as int,
            SlotView::Array(
                store_at(
                    before[seq.obj_id as int]->Array_0,
                    seq.array_idx as int,
                    encoding(value@).unwrap(),
                ),
            ),
        ));
        seq.array_idx = seq.array_idx + 1;
        Ok(())
    }

    /// Ends the record or sequence under construction: it is complete and
    /// no longer noted. With nothing under construction nothing changes.
    pub fn end(&mut self) -> (res: Result<(), Error>)
        ensures
            *final(final(self).ctx) == *final(old(self).ctx),
            *final(self).ctx == *old(self).ctx,
            final(self).objects@ == if old(self).objects@.len() > 0 {
                old(self).objects@.drop_last()
            } else {
                old(self).objects@
            },
            res is Ok,
    {
        let _ = self.objects.pop();
        Ok(())
    }
}

impl Value {
    /// Writes the value through `s`: one slot on top of the stack, or a
    /// refusal where the value holds something the protocol does not carry.
    pub fn serialize(&self, s: &mut DuktapeSerializer) -> (res: Result<(), Error>)
        requires
            old(s).ctx.wf(),
            old(s).ctx.has_room(depth(self@) as int),
        ensures
            *final(final(s).ctx) == *final(old(s).ctx),
            res is Ok <==> encoding(self@) is Some,
            res is Ok ==> final(s).pushed(old(s), encoding(self@).unwrap()),
            res matches Err(e) ==> e.text() == "not implemented"@ && final(s).extends(old(s)),
        decreases self, 0nat,
    {
        proof {
            assert(s.ctx@.subrange(0, s.ctx@.len() as int) =~= s.ctx@);
            assert(s.objects@.subrange(0, s.objects@.len() as int) =~= s.objects@);
        }
        match self {
            Value::Unit => s.serialize_unit(),
            Value::UnitStruct => s.serialize_unit_struct(),
            Value::Bool(v) => s.serialize_bool(*v),
            Value::I8(v) => s.serialize_i8(*v),
            Value::I16(v) => s.serialize_i16(*v),
            Value::I32(v) => s.serialize_i32(*v),
            Value::I64(v) => s.serialize_i64(*v),
            Value::U8(v) => s.serialize_u8(*v),
            Value::U16(v) => s.serialize_u16(*v),
            Value::U32(v) => s.serialize_u32(*v),
            Value::U64(v) => s.serialize_u64(*v),
            Value::Whole(v) => s.serialize_whole(*v),
            Value::Double(bits) => s.serialize_double(*bits),
            Value::Char(v) => s.serialize_char(*v),
            Value::Text(v) => s.serialize_str(v.as_str()),
            Value::Bytes(v) => s.serialize_bytes(v.as_slice()),
            Value::Absent => s.serialize_none(),
            Value::Present(inner) => s.serialize_some(inner),
            Value::Newtype(inner) => s.serialize_newtype_struct(inner),
            Value::Variant(name) => s.serialize_variant(name.as_str()),
            Value::Mapping(len) => s.serialize_map(Some(*len)),
            Value::Sequence(items) => serialize_items(items, s),
            Value::Record(fields) => serialize_fields(fields, s),
        }
    }
}

/// Writes a sequence: an array with the items at their indices.
fn serialize_items(items: &Vec<Value>, s: &mut DuktapeSerializer) -> (res: Result<(), Error>)
    requires
        old(s).ctx.wf(),
        old(s).ctx.has_room(1 + deepest_item(view_values(items), items.len() as int) as int),
    ensures
        *final(final(s).ctx) == *final(old(s).ctx),
        res is Ok <==> encoded_items(view_values(items), items.len() as int) is Some && items.len()
            <= u32::MAX,
        res is Ok ==> final(s).pushed(
            old(s),
            SlotView::Array(encoded_items(view_values(items), items.len() as int).unwrap()),
        ),
        res matches Err(e) ==> e.text() == "not implemented"@ && final(s).extends(old(s)),
    decreases items, 0nat,
{
    let ghost all = view_values(items);
    let ghost base = s.ctx@;
    let ghost noted = s.objects@;
    if items.len() > u32::MAX as usize {
        assert(s.ctx@.subrange(0, s.ctx@.len() as int) =~= s.ctx@);
        assert(s.objects@.subrange(0, s.objects@.len() as int) =~= s.objects@);
        return Err(Error::unsupported());
    }
    let started = s.serialize_seq(Some(items.len()));
    let mut seq = match started {
        Ok(seq) => seq,
        Err(e) => {
            return Err(e);
        },
    };
    let mut i: usize = 0;
    while i < items.len()
        invariant
            i <= items.len(),
            items.len() <= u32::MAX,
            all == view_values(items),
            *final(s.ctx) == *final(old(s).ctx),
            s.ctx.wf(),
            s.ctx.ambient() == old(s).ctx.ambient(),
            base == old(s).ctx@,
            noted == old(s).objects@,
            base.len() + 1 + deepest_item(all, items.len() as int) <= crate::context::STACK_LIMIT,
            seq.obj_id == base.len(),
            seq.array_idx == i,
            s.objects@ == noted.push(base.len() as i32),
            encoded_items(all, i as int) is Some,
            s.ctx@ == base.push(SlotView::Array(encoded_items(all, i as int).unwrap())),
        decreases items.len() - i,
    {
        proof {
            lemma_deepest_item(all, items.len() as int, i as int);
        }
        let ghost stack = s.ctx@;
        let ghost list = s.objects@;
        match s.serialize_element(&mut seq, &items[i]) {
            Ok(()) => {},
            Err(e) => {
                proof {
                    lemma_refused_items(all, i as int + 1, items.len() as int);
                    assert(s.ctx@.subrange(0, base.len() as int) =~= stack.subrange(
                        0,
                        base.len() as int,
                    ));
                    assert(stack.subrange(0, base.len() as int) =~= base);
                    assert(s.objects@.subrange(0, noted.len() as int) =~= list.subrange(
                        0,
                        noted.len() as int,
                    ));
                    assert(list.subrange(0, noted.len() as int) =~= noted);
                }
                return Err(e);
            },
        }
        proof {
            let so_far = encoded_items(all, i as int).unwrap();
            assert(store_at(so_far, i as int, encoding(all[i as int]).unwrap()) =~= so_far.push(
                encoding(all[i as int]).unwrap(),
            )) by {
                lemma_encoded_len(all, i as int);
            }
            assert(s.ctx@ =~= base.push(
                SlotView::Array(encoded_items(all, i as int + 1).unwrap()),
            ));
        }
        i += 1;
    }
    let done = s.end();
    assert(s.objects@ =~= noted);
    done
}

/// Writes a record: an object with each field bound under its name.
fn serialize_fields(fields: &Vec<Field>, s: &mut DuktapeSerializer) -> (res: Result<(), Error>)
    requires
        old(s).ctx.wf(),
        old(s).ctx.has_room(1 + deepest_field(view_fields(fields), fields.len() as int) as int),
    ensures
        *final(final(s).ctx) == *final(old(s).ctx),
        res is Ok <==> encoded_fields(view_fields(fields), fields.len() as int) is Some,
        res is Ok ==> final(s).pushed(
            old(s),
            SlotView::Object(encoded_fields(view_fields(fields), fields.len() as int).unwrap()),
        ),
        res matches Err(e) ==> e.text() == "not implemented"@ && final(s).extends(old(s)),
    decreases fields, 0nat,
{
    let ghost all = view_fields(fields);
    let ghost base = s.ctx@;
    let ghost noted = s.objects@;
    match s.serialize_struct(fields.len()) {
        Ok(()) => {},
        Err(e) => {
            return Err(e);
        },
    }
    let mut i: usize = 0;
    while i < fields.len()
        invariant
            i <= fields.len(),
            all == view_fields(fields),
            *final(s.ctx) == *final(old(s).ctx),
            s.ctx.wf(),
            s.ctx.ambient() == old(s).ctx.ambient(),
            base == old(s).ctx@,
            noted == old(s).objects@,
            base.len() + 1 + deepest_field(all, fields.len() as int) <= crate::context::STACK_LIMIT,
            s.objects@ == noted.push(base.len() as i32),
            encoded_fields(all, i as int) is Some,
            s.ctx@ == base.push(SlotView::Object(encoded_fields(all, i as int).unwrap())),
        decreases fields.len() - i,
    {
        proof {
            lemma_deepest_field(all, fields.len() as int, i as int);
        }
        let field = &fields[i];
        let ghost stack = s.ctx@;
        let ghost list = s.objects@;
        match s.serialize_field(field.name.as_str(), &field.value) {
            Ok(()) => {},
            Err(e) => {
                proof {
                    lemma_refused_fields(all, i as int + 1, fields.len() as int);
                    assert(s.ctx@.subrange(0, base.len() as int) =~= stack.subrange(
                        0,
                        base.len() as int,
                    ));
                    assert(stack.subrange(0, base.len() as int) =~= base);
                    assert(s.objects@.subrange(0, noted.len() as int) =~= list.subrange(
                        0,
                        noted.len() as int,
                    ));
                    assert(list.subrange(0, noted.len() as int) =~= noted);
                }
                return Err(e);
            },
        }
        proof {
            assert(s.ctx@ =~= base.push(
                SlotView::Object(encoded_fields(all, i as int + 1).unwrap()),
            ));
        }
        i += 1;
    }
    let done = s.end();
    assert(s.objects@ =~= noted);
    done
}

/// The first `n` items are written as `n` slots.
pub proof fn lemma_encoded_len(items: Seq<ValueView>, n: int)
    requires
        0 <= n <= items.len(),
        encoded_items(items, n) is Some,
    ensures
        encoded_items(items, n).unwrap().len() == n,
    decreases n,
{
    if n > 0 {
        lemma_encoded_len(items, n - 1);
    }
}

/// Why a value cannot be read back.
pub ghost enum Fault {
    /// The kind asked for is one the protocol does not carry.
    Unsupported,
    /// The object lacks the declared field of this name.
    IncorrectField(Seq<char>),
    /// The value has another dynamic type than the kind asked for.
    IncorrectType,
}

impl Fault {
    /// The message of the failure that reports the fault.
    pub open spec fn text(self) -> Seq<char> {
        match self {
            Fault::Unsupported => "not implemented"@,
            Fault::IncorrectField(name) => "incorrect field "@ + name,
            Fault::IncorrectType => "incorrect type"@,
        }
    }
}

/// The native value that a slot is read back as under `kind`, or the fault
/// that stops the reading. Of a record, the first declared field that
/// cannot be read decides.
pub open spec fn decoding(slot: SlotView, kind: KindView) -> Result<ValueView, Fault>
    decreases kind, 0nat,
{
    match kind {
        KindView::Unit => Ok(ValueView::Unit),
        KindView::UnitStruct => if slot is Null {
            Ok(ValueView::UnitStruct)
        } else {
            Err(Fault::IncorrectType)
        },
        KindView::Bool => match slot {
            SlotView::Boolean(b) => Ok(ValueView::Bool(b)),
            _ => Err(Fault::IncorrectType),
        },
        KindView::I8 => match slot {
            SlotView::Number(n) => Ok(ValueView::I8(clamp_int(n) as i8)),
            _ => Err(Fault::IncorrectType),
        },
        KindView::I16 => match slot {
            SlotView::Number(n) => Ok(ValueView::I16(clamp_int(n) as i16)),
            _ => Err(Fault::IncorrectType),
        },
        KindView::I32 => match slot {
            SlotView::Number(n) => Ok(ValueView::I32(clamp_int(n) as i32)),
            _ => Err(Fault::IncorrectType),
        },
        KindView::U8 => match slot {
            SlotView::Number(n) => Ok(ValueView::U8(clamp_uint(n) as u8)),
            _ => Err(Fault::IncorrectType),
        },
        KindView::U16 => match slot {
            SlotView::Number(n) => Ok(ValueView::U16(clamp_uint(n) as u16)),
            _ => Err(Fault::IncorrectType),
        },
        KindView::U32 => match slot {
            SlotView::Number(n) => Ok(ValueView::U32(clamp_uint(n) as u32)),
            _ => Err(Fault::IncorrectType),
        },
        KindView::Double => match slot {
            SlotView::Number(n) => if i64::MIN <= n <= i64::MAX {
                Ok(ValueView::Whole(n as i64))
            } else {
                Err(Fault::IncorrectType)
            },
            SlotView::Double(bits) => Ok(ValueView::Double(bits)),
            _ => Err(Fault::IncorrectType),
        },
        KindView::Char => match slot {
            SlotView::Text(s) => if s.len() == 1 {
                Ok(ValueView::Char(s[0]))
            } else {
                Err(Fault::IncorrectType)
            },
            _ => Err(Fault::IncorrectType),
        },
        KindView::Text => match slot {
            SlotView::Text(s) => Ok(ValueView::Text(s)),
            _ => Err(Fault::IncorrectType),
        },
        KindView::Optional(inner) => if slot.is_absent() {
            Ok(ValueView::Absent)
        } else {
            match decoding(slot, *inner) {
                Ok(v) => Ok(ValueView::Present(Box::new(v))),
                Err(f) => Err(f),
            }
        },
        KindView::Newtype(inner) => match decoding(slot, *inner) {
            Ok(v) => Ok(ValueView::Newtype(Box::new(v))),
            Err(f) => Err(f),
        },
        KindView::Record(fields) => match slot {
            SlotView::Object(props) => match decoded_fields(props, fields, fields.len() as int) {
                Ok(read) => Ok(ValueView::Record(read)),
                Err(f) => Err(f),
            },
            _ => Err(Fault::IncorrectType),
        },
        KindView::I64 => Err(Fault::Unsupported),
        KindView::U64 => Err(Fault::Unsupported),
        KindView::Str => Err(Fault::Unsupported),
        KindView::Bytes => Err(Fault::Unsupported),
        KindView::Sequence(_) => Err(Fault::Unsupported),
        KindView::Enum => Err(Fault::Unsupported),
        KindView::Mapping => Err(Fault::Unsupported),
        KindView::Any => Err(Fault::Unsupported),
    }
}

/// The first `n` declared fields as read from the properties `props`, or
/// the fault of the first of them that cannot be read.
pub open spec fn decoded_fields(
    props: Seq<(Seq<u8>, SlotView)>,
    fields: Seq<FieldKindView>,
    n: int,
) -> Result<Seq<FieldView>, Fault>
    decreases fields, n,
{
    if n <= 0 || n > fields.len() {
        Ok(Seq::empty())
    } else {
        match decoded_fields(props, fields, n - 1) {
            Err(f) => Err(f),
            Ok(read) => match decoded_field(props, fields[n - 1]) {
                Err(f) => Err(f),
                Ok(v) => Ok(read.push(FieldView { name: fields[n - 1].name, value: v })),
            },
        }
    }
}

/// The value bound to the field `name` among the properties `props`, if
/// there is one.
pub open spec fn element_slot(props: Seq<(Seq<u8>, SlotView)>, name: Seq<char>) -> Option<SlotView> {
    let key = encode_utf8(name);
    if has_key(props, key) {
        Some(props[find_key(props, key)].1)
    } else {
        None
    }
}

/// One declared field as read from the properties `props`.
pub open spec fn decoded_field(props: Seq<(Seq<u8>, SlotView)>, field: FieldKindView) -> Result<
    ValueView,
    Fault,
>
    decreases field,
{
    let key = encode_utf8(field.name);
    if has_key(props, key) {
        decoding(props[find_key(props, key)].1, field.kind)
    } else {
        Err(Fault::IncorrectField(field.name))
    }
}

/// The number of free slots that reading a value of `kind` takes at most:
/// one for each level of records.
pub open spec fn kind_depth(kind: KindView) -> nat
    decreases kind, 0nat,
{
    match kind {
        KindView::Optional(inner) => kind_depth(*inner),
        KindView::Newtype(inner) => kind_depth(*inner),
        KindView::Record(fields) => 1 + deepest_kind(fields, fields.len() as int),
        _ => 0,
    }
}

/// The largest depth among the first `n` declared fields.
pub open spec fn deepest_kind(fields: Seq<FieldKindView>, n: int) -> nat
    decreases fields, n,
{
    if n <= 0 || n > fields.len() {
        0
    } else {
        let rest = deepest_kind(fields, n - 1);
        let last = kind_depth(fields[n - 1].kind);
        if last > rest {
            last
        } else {
            rest
        }
    }
}

/// Every one of the first `n` declared fields is at most as deep as the
/// deepest.
pub proof fn lemma_deepest_kind(fields: Seq<FieldKindView>, n: int, i: int)
    requires
        0 <= i < n <= fields.len(),
    ensures
        kind_depth(fields[i].kind) <= deepest_kind(fields, n),
    decreases n,
{
    if i < n - 1 {
        lemma_deepest_kind(fields, n - 1, i);
    }
}

/// Where a prefix of the declared fields cannot be read, no longer prefix
/// can, and the fault stays the same.
pub proof fn lemma_fault_stays(
    props: Seq<(Seq<u8>, SlotView)>,
    fields: Seq<FieldKindView>,
    i: int,
    n: int,
)
    requires
        0 <= i <= n <= fields.len(),
        decoded_fields(props, fields, i) is Err,
    ensures
        decoded_fields(props, fields, n) == decoded_fields(props, fields, i),
    decreases n,
{
    if i < n {
        lemma_fault_stays(props, fields, i, n - 1);
    }
}

/// Reads the value at one index of a stack back as a native value.
#[derive(Debug)]
pub struct DuktapeDeserializer<'ctx> {
    pub inner: &'ctx mut Context,
    /// The index that is read.
    pub stack_idx: i32,
}

impl<'ctx> DuktapeDeserializer<'ctx> {
    /// A deserializer that reads index `stack_idx` of `ctx`.
    pub fn from_ctx(ctx: &'ctx mut Context, stack_idx: i32) -> (d: DuktapeDeserializer<'ctx>)
        ensures
            *d.inner == *old(ctx),
            *final(d.inner) == *final(ctx),
            d.stack_idx == stack_idx,
    {
        DuktapeDeserializer { inner: ctx, stack_idx }
    }

    /// The value that is read.
    pub open spec fn subject(&self) -> SlotView {
        self.inner.slot(self.stack_idx as int)
    }

    /// Whether a reading under `kind` that started from `before` and gave
    /// `res` left the stack as it was and gave what `decoding` says.
    pub open spec fn reads(&self, before: &Self, kind: KindView, res: Result<Value, Error>) -> bool {
        &&& self.inner.wf()
        &&& self.inner@ == before.inner@
        &&& self.inner.ambient() == before.inner.ambient()
        &&& self.stack_idx == before.stack_idx
        &&& match decoding(before.subject(), kind) {
            Ok(v) => res matches Ok(r) && r@ == v,
            Err(f) => res matches Err(e) && e.text() == f.text(),
        }
    }

    /// Refuses to read a value of unknown kind: the stack does not describe
    /// itself.
    pub fn deserialize_any(&mut self) -> (res: Result<Value, Error>)
        ensures
            *final(self) == *old(self),
            res matches Err(e) && e.text() == "not implemented"@,
    {
        Err(Error::unsupported())
    }

    /// Reads a boolean.
    pub fn deserialize_bool(&mut self) -> (res: Result<Value, Error>)
        requires
            old(self).inner.wf(),
            old(self).inner.valid(old(self).stack_idx as int),
        ensures
            *final(final(self).inner) == *final(old(self).inner),
            final(self).reads(old(self), KindView::Bool, res),
    {
        match self.inner.tag_at(self.stack_idx) {
            Tag::Boolean => Ok(Value::Bool(self.inner.get_bool(self.stack_idx))),
            _ => Err(Error::incorrect_type()),
        }
    }

    /// Reads a number as an 8-bit signed integer, keeping its low bits.
    pub fn deserialize_i8(&mut self) -> (res: Result<Value, Error>)
        requires
            old(self).inner.wf(),
            old(self).inner.valid(old(self).stack_idx as int),
        ensures
            *final(final(self).inner) == *final(old(self).inner),
            final(self).reads(old(self), KindView::I8, res),
    {
        match self.inner.tag_at(self.stack_idx) {
            Tag::Number => {
                let val = self.inner.get_int(self.stack_idx);
                Ok(Value::I8(#[verifier::truncate] (val as i8)))
            },
            _ => Err(Error::incorrect_type()),
        }
    }

    /// Reads a number as a 16-bit signed integer, keeping its low bits.
    pub fn deserialize_i16(&mut self) -> (res: Result<Value, Error>)
        requires
            old(self).inner.wf(),
            old(self).inner.valid(old(self).stack_idx as int),
        ensures
            *final(final(self).inner) == *final(old(self).inner),
            final(self).reads(old(self), KindView::I16, res),
    {
        match self.inner.tag_at(self.stack_idx) {
            Tag::Number => {
                let val = self.inner.get_int(self.stack_idx);
                Ok(Value::I16(#[verifier::truncate] (val as i16)))
            },
            _ => Err(Error::incorrect_type()),
        }
    }

    /// Reads a number as a 32-bit signed integer.
    pub fn deserialize_i32(&mut self) -> (res: Result<Value, Error>)
        requires
            old(self).inner.wf(),
            old(self).inner.valid(old(self).stack_idx as int),
        ensures
            *final(final(self).inner) == *final(old(self).inner),
            final(self).reads(old(self), KindView::I32, res),
    {
        match self.inner.tag_at(self.stack_idx) {
            Tag::Number => Ok(Value::I32(self.inner.get_int(self.stack_idx))),
            _ => Err(Error::incorrect_type()),
        }
    }

    /// Refuses to read a 64-bit signed integer.
    pub fn deserialize_i64(&mut self) -> (res: Result<Value, Error>)
        ensures
            *final(self) == *old(self),
            res matches Err(e) && e.text() == "not implemented"@,
    {
        Err(Error::unsupported())
    }

    /// Reads a number as an 8-bit unsigned integer, keeping its low bits.
    pub fn deserialize_u8(&mut self) -> (res: Result<Value, Error>)
        requires
            old(self).inner.wf(),
            old(self).inner.valid(old(self).stack_idx as int),
        ensures
            *final(final(self).inner) == *final(old(self).inner),
            final(self).reads(old(self), KindView::U8, res),
    {
        match self.inner.tag_at(self.stack_idx) {
            Tag::Number => {
                let val = self.inner.get_uint(self.stack_idx);
                Ok(Value::U8(#[verifier::truncate] (val as u8)))
            },
            _ => Err(Error::incorrect_type()),
        }
    }

    /// Reads a number as a 16-bit unsigned integer, keeping its low bits.
    pub fn deserialize_u16(&mut self) -> (res: Result<Value, Error>)
        requires
            old(self).inner.wf(),
            old(self).inner.valid(old(self).stack_idx as int),
        ensures
            *final(final(self).inner) == *final(old(self).inner),
            final(self).reads(old(self), KindView::U16, res),
    {
        match self.inner.tag_at(self.stack_idx) {
            Tag::Number => {
                let val = self.inner.get_uint(self.stack_idx);
                Ok(Value::U16(#[verifier::truncate] (val as u16)))
            },
            _ => Err(Error::incorrect_type()),
        }
    }

    /// Reads a number as a 32-bit unsigned integer.
    pub fn deserialize_u32(&mut self) -> (res: Result<Value, Error>)
        requires
            old(self).inner.wf(),
            old(self).inner.valid(old(self).stack_idx as int),
        ensures
            *final(final(self).inner) == *final(old(self).inner),
            final(self).reads(old(self), KindView::U32, res),
    {
        match self.inner.tag_at(self.stack_idx) {
            Tag::Number => Ok(Value::U32(self.inner.get_uint(self.stack_idx))),
            _ => Err(Error::incorrect_type()),
        }
    }

    /// Refuses to read a 64-bit unsigned integer.
    pub fn deserialize_u64(&mut self) -> (res: Result<Value, Error>)
        ensures
            *final(self) == *old(self),
            res matches Err(e) && e.text() == "not implemented"@,
    {
        Err(Error::unsupported())
    }

    /// Reads a number as a number of double precision: an integer as it
    /// is, any other number by its bits.
    pub fn deserialize_double(&mut self) -> (res: Result<Value, Error>)
        requires
            old(self).inner.wf(),
            old(self).inner.valid(old(self).stack_idx as int),
        ensures
            *final(final(self).inner) == *final(old(self).inner),
            final(self).reads(old(self), KindView::Double, res),
    {
        match self.inner.peek_slot(self.stack_idx) {
            crate::slot::Slot::Number(n) => Ok(Value::Whole(n)),
            crate::slot::Slot::Double(bits) => Ok(Value::Double(bits)),
            _ => Err(Error::incorrect_type()),
        }
    }

    /// Reads a string of exactly one character as that character.
    pub fn deserialize_char(&mut self) -> (res: Result<Value, Error>)
        requires
            old(self).inner.wf(),
            old(self).inner.valid(old(self).stack_idx as int),
        ensures
            *final(final(self).inner) == *final(old(self).inner),
            final(self).reads(old(self), KindView::Char, res),
    {
        match self.inner.tag_at(self.stack_idx) {
            Tag::Text => {
                let val = self.inner.get_string(self.stack_idx);
                if val.as_str().unicode_len() == 1 {
                    Ok(Value::Char(val.as_str().get_char(0)))
                } else {
                    Err(Error::incorrect_type())
                }
            },
            _ => Err(Error::incorrect_type()),
        }
    }

    /// Refuses to read a borrowed string: nothing on the stack can be lent.
    pub fn deserialize_str(&mut self) -> (res: Result<Value, Error>)
        ensures
            *final(self) == *old(self),
            res matches Err(e) && e.text() == "not implemented"@,
    {
        Err(Error::unsupported())
    }

    /// Reads a string as an owned string.
    pub fn deserialize_string(&mut self) -> (res: Result<Value, Error>)
        requires
            old(self).inner.wf(),
            old(self).inner.valid(old(self).stack_idx as int),
        ensures
            *final(final(self).inner) == *final(old(self).inner),
            final(self).reads(old(self), KindView::Text, res),
    {
        match self.inner.tag_at(self.stack_idx) {
            Tag::Text => Ok(Value::Text(self.inner.get_string(self.stack_idx))),
            _ => Err(Error::incorrect_type()),
        }
    }

    /// Refuses to read a byte string.
    pub fn deserialize_bytes(&mut self) -> (res: Result<Value, Error>)
        ensures
            *final(self) == *old(self),
            res matches Err(e) && e.text() == "not implemented"@,
    {
        Err(Error::unsupported())
    }

    /// Reads an optional value: `null` and `undefined` both as absent,
    /// anything else as a present value of kind `inner`.
    pub fn deserialize_option(&mut self, inner: &Kind) -> (res: Result<Value, Error>)
        requires
            old(self).inner.wf(),
            old(self).inner.valid(old(self).stack_idx as int),
            old(self).inner.has_room(kind_depth(inner@) as int),
        ensures
            *final(final(self).inner) == *final(old(self).inner),
            final(self).reads(old(self), KindView::Optional(Box::new(inner@)), res),
        decreases inner, 1nat,
    {
        match self.inner.tag_at(self.stack_idx) {
            Tag::Null => Ok(Value::Absent),
            Tag::Undefined => Ok(Value::Absent),
            _ => match self.deserialize(inner) {
                Ok(v) => Ok(Value::Present(Box::new(v))),
                Err(e) => Err(e),
            },
        }
    }

    /// Reads the empty value: whatever sits at the index.
    pub fn deserialize_unit(&mut self) -> (res: Result<Value, Error>)
        requires
            old(self).inner.wf(),
        ensures
            *final(final(self).inner) == *final(old(self).inner),
            final(self).reads(old(self), KindView::Unit, res),
    {
        Ok(Value::Unit)
    }

    /// Reads `null` as a struct without fields.
    pub fn deserialize_unit_struct(&mut self) -> (res: Result<Value, Error>)
        requires
            old(self).inner.wf(),
            old(self).inner.valid(old(self).stack_idx as int),
        ensures
            *final(final(self).inner) == *final(old(self).inner),
            final(self).reads(old(self), KindView::UnitStruct, res),
    {
        match self.inner.tag_at(self.stack_idx) {
            Tag::Null => {
                self.inner.get_null(self.stack_idx);
                Ok(Value::UnitStruct)
            },
            _ => Err(Error::incorrect_type()),
        }
    }

    /// Reads a struct that wraps one value of kind `inner`.
    pub fn deserialize_newtype_struct(&mut self, inner: &Kind) -> (res: Result<Value, Error>)
        requires
            old(self).inner.wf(),
            old(self).inner.valid(old(self).stack_idx as int),
            old(self).inner.has_room(kind_depth(inner@) as int),
        ensures
            *final(final(self).inner) == *final(old(self).inner),
            final(self).reads(old(self), KindView::Newtype(Box::new(inner@)), res),
        decreases inner, 1nat,
    {
        match self.deserialize(inner) {
            Ok(v) => Ok(Value::Newtype(Box::new(v))),
            Err(e) => Err(e),
        }
    }

    /// Refuses to read a sequence, a tuple or a struct of unnamed fields.
    pub fn deserialize_seq(&mut self) -> (res: Result<Value, Error>)
        ensures
            *final(self) == *old(self),
            res matches Err(e) && e.text() == "not implemented"@,
    {
        Err(Error::unsupported())
    }

    /// Refuses to read a map.
    pub fn deserialize_map(&mut self) -> (res: Result<Value, Error>)
        ensures
            *final(self) == *old(self),
            res matches Err(e) && e.text() == "not implemented"@,
    {
        Err(Error::unsupported())
    }

    /// Refuses to read an enum.
    pub fn deserialize_enum(&mut self) -> (res: Result<Value, Error>)
        ensures
            *final(self) == *old(self),
            res matches Err(e) && e.text() == "not implemented"@,
    {
        Err(Error::unsupported())
    }

    /// Looks the declared field `name` up on the object at absolute index
    /// `obj_idx`. Where the object has the property, its value is pushed;
    /// otherwise the stack stays as it is and the failure names the field.
    pub fn open_element(&mut self, obj_idx: i32, name: &str) -> (res: Result<(), Error>)
        requires
            old(self).inner.wf(),
            0 <= obj_idx < old(self).inner@.len(),
            old(self).inner@[obj_idx as int] is Object,
            old(self).inner.has_room(1),
        ensures
            *final(final(self).inner) == *final(old(self).inner),
            final(self).inner.wf(),
            final(self).inner.ambient() == old(self).inner.ambient(),
            final(self).stack_idx == old(self).stack_idx,
            match element_slot(old(self).inner@[obj_idx as int]->Object_0, name@) {
                Some(slot) => res is Ok && final(self).inner@ == old(self).inner@.push(slot),
                None => res matches Err(e) && e.text() == Fault::IncorrectField(name@).text()
                    && final(self).inner@ == old(self).inner@,
            },
    {
        if !self.inner.get_prop(obj_idx, name) {
            return Err(Error::incorrect_field(name));
        }
        Ok(())
    }

    /// Removes the value of a field from the top of the stack once it has
    /// been read.
    pub fn close_element(&mut self)
        requires
            old(self).inner.wf(),
            old(self).inner@.len() > 0,
        ensures
            *final(final(self).inner) == *final(old(self).inner),
            final(self).inner.wf(),
            final(self).inner@ == old(self).inner@.drop_last(),
            final(self).inner.ambient() == old(self).inner.ambient(),
            final(self).stack_idx == old(self).stack_idx,
    {
        self.inner.pop();
    }

    /// Reads one declared field of the object at absolute index `obj_idx`:
    /// looks the property up, reads the value found at the top of the stack,
    /// and removes it again.
    pub fn next_element(&mut self, obj_idx: i32, field: &FieldKind) -> (res: Result<Value, Error>)
        requires
            old(self).inner.wf(),
            0 <= obj_idx < old(self).inner@.len(),
            old(self).inner@[obj_idx as int] is Object,
            old(self).inner.has_room(1 + kind_depth(field.kind@) as int),
        ensures
            *final(final(self).inner) == *final(old(self).inner),
            final(self).inner.wf(),
            final(self).inner@ == old(self).inner@,
            final(self).inner.ambient() == old(self).inner.ambient(),
            final(self).stack_idx == old(self).stack_idx,
            match decoded_field(old(self).inner@[obj_idx as int]->Object_0, field@) {
                Ok(v) => res matches Ok(r) && r@ == v,
                Err(f) => res matches Err(e) && e.text() == f.text(),
            },
        decreases field, 1nat,
    {
        let ghost before = self.inner@;
        match self.open_element(obj_idx, field.name.as_str()) {
            Ok(()) => {},
            Err(e) => {
                return Err(e);
            },
        }
        let saved = self.stack_idx;
        self.stack_idx = -1;
        let res = self.deserialize(&field.kind);
        self.stack_idx = saved;
        self.close_element();
        assert(self.inner@ =~= before);
        res
    }

    /// Reads an object as a record with the declared fields, in their
    /// order. The first field that cannot be read stops the reading.
    pub fn deserialize_struct(&mut self, fields: &Vec<FieldKind>) -> (res: Result<Value, Error>)
        requires
            old(self).inner.wf(),
            old(self).inner.valid(old(self).stack_idx as int),
            old(self).inner.has_room(
                1 + deepest_kind(view_field_kinds(fields), fields.len() as int) as int,
            ),
        ensures
            *final(final(self).inner) == *final(old(self).inner),
            final(self).reads(old(self), KindView::Record(view_field_kinds(fields)), res),
        decreases fields, 0nat,
    {
        match self.inner.tag_at(self.stack_idx) {
            Tag::Object => {},
            _ => {
                return Err(Error::incorrect_type());
            },
        }
        self.inner.get_object(self.stack_idx);
        let len = self.inner.stack_len();
        let obj_idx = if self.stack_idx >= 0 {
            self.stack_idx
        } else {
            len + self.stack_idx
        };
        let ghost all = view_field_kinds(fields);
        let ghost props = self.inner@[obj_idx as int]->Object_0;
        let mut read: Vec<Field> = Vec::new();
        let mut i: usize = 0;
        assert(view_fields(&read) =~= Seq::<FieldView>::empty());
        while i < fields.len()
            invariant
                i <= fields.len(),
                all == view_field_kinds(fields),
                *final(self.inner) == *final(old(self).inner),
                self.inner.wf(),
                self.inner@ == old(self).inner@,
                self.inner.ambient() == old(self).inner.ambient(),
                self.stack_idx == old(self).stack_idx,
                0 <= obj_idx < self.inner@.len(),
                obj_idx == old(self).inner.at(old(self).stack_idx as int),
                self.inner@[obj_idx as int] == SlotView::Object(props),
                self.inner.has_room(1 + deepest_kind(all, fields.len() as int) as int),
                decoded_fields(props, all, i as int) == Ok::<Seq<FieldView>, Fault>(
                    view_fields(&read),
                ),
            decreases fields.len() - i,
        {
            proof {
                lemma_deepest_kind(all, fields.len() as int, i as int);
            }
            let field = &fields[i];
            assert(field@ == all[i as int]);
            match self.next_element(obj_idx, field) {
                Ok(value) => {
                    let ghost so_far = view_fields(&read);
                    read.push(Field { name: field.name.clone(), value });
                    assert(view_fields(&read) =~= so_far.push(
                        FieldView { name: all[i as int].name, value: value@ },
                    ));
                },
                Err(e) => {
                    proof {
                        let step = decoded_field(props, all[i as int]);
                        assert(step is Err);
                        assert(decoded_fields(props, all, i as int + 1) == Err::<
                            Seq<FieldView>,
                            Fault,
                        >(step->Err_0));
                        lemma_fault_stays(props, all, i as int + 1, fields.len() as int);
                        assert(old(self).subject() == SlotView::Object(props));
                        assert(decoding(SlotView::Object(props), KindView::Record(all)) == Err::<
                            ValueView,
                            Fault,
                        >(step->Err_0));
                    }
                    return Err(e);
                },
            }
            i += 1;
        }
        Ok(Value::Record(read))
    }

    /// Reads the value under `kind`.
    pub fn deserialize(&mut self, kind: &Kind) -> (res: Result<Value, Error>)
        requires
            old(self).inner.wf(),
            old(self).inner.valid(old(self).stack_idx as int),
            old(self).inner.has_room(kind_depth(kind@) as int),
        ensures
            *final(final(self).inner) == *final(old(self).inner),
            final(self).reads(old(self), kind@, res),
        decreases kind, 0nat,
    {
        match kind {
            Kind::Unit => self.deserialize_unit(),
            Kind::UnitStruct => self.deserialize_unit_struct(),
            Kind::Bool => self.deserialize_bool(),
            Kind::I8 => self.deserialize_i8(),
            Kind::I16 => self.deserialize_i16(),
            Kind::I32 => self.deserialize_i32(),
            Kind::I64 => self.deserialize_i64(),
            Kind::U8 => self.deserialize_u8(),
            Kind::U16 => self.deserialize_u16(),
            Kind::U32 => self.deserialize_u32(),
            Kind::U64 => self.deserialize_u64(),
            Kind::Double => self.deserialize_double(),
            Kind::Char => self.deserialize_char(),
            Kind::Str => self.deserialize_str(),
            Kind::Text => self.deserialize_string(),
            Kind::Bytes => self.deserialize_bytes(),
            Kind::Optional(inner) => self.deserialize_option(inner),
            Kind::Newtype(inner) => self.deserialize_newtype_struct(inner),
            Kind::Sequence(_) => self.deserialize_seq(),
            Kind::Record(fields) => self.deserialize_struct(fields),
            Kind::Enum => self.deserialize_enum(),
            Kind::Mapping => self.deserialize_map(),
            Kind::Any => self.deserialize_any(),
        }
    }
}

impl Value {
    /// Whether the value can be written: it holds nothing that the protocol
    /// does not carry.
    pub fn can_be_written(&self) -> (r: bool)
        ensures
            r == (encoding(self@) is Some),
        decreases self, 0nat,
    {
        match self {
            Value::I64(_) => false,
            Value::U64(_) => false,
            Value::Bytes(_) => false,
            Value::Variant(_) => false,
            Value::Mapping(_) => false,
            Value::Present(inner) => inner.can_be_written(),
            Value::Newtype(inner) => inner.can_be_written(),
            Value::Sequence(items) => items.len() <= u32::MAX as usize && items_can_be_written(
                items,
            ),
            Value::Record(fields) => fields_can_be_written(fields),
            _ => true,
        }
    }

    /// Whether `room` free slots are enough to write the value.
    pub fn fits(&self, room: usize) -> (r: bool)
        ensures
            r == (depth(self@) <= room),
        decreases self, 0nat,
    {
        match self {
            Value::Present(inner) => inner.fits(room),
            Value::Newtype(inner) => inner.fits(room),
            Value::Sequence(items) => room >= 1 && items_fit(items, room - 1),
            Value::Record(fields) => room >= 1 && fields_fit(fields, room - 1),
            _ => room >= 1,
        }
    }
}

/// Whether each of the items can be written.
fn items_can_be_written(items: &Vec<Value>) -> (r: bool)
    ensures
        r == (encoded_items(view_values(items), items.len() as int) is Some),
    decreases items, 0nat,
{
    let ghost all = view_values(items);
    let mut i: usize = 0;
    while i < items.len()
        invariant
            i <= items.len(),
            all == view_values(items),
            encoded_items(all, i as int) is Some,
        decreases items.len() - i,
    {
        if !items[i].can_be_written() {
            proof {
                lemma_refused_items(all, i as int + 1, items.len() as int);
            }
            return false;
        }
        i += 1;
    }
    true
}

/// Whether each of the fields can be written.
fn fields_can_be_written(fields: &Vec<Field>) -> (r: bool)
    ensures
        r == (encoded_fields(view_fields(fields), fields.len() as int) is Some),
    decreases fields, 0nat,
{
    let ghost all = view_fields(fields);
    let mut i: usize = 0;
    while i < fields.len()
        invariant
            i <= fields.len(),
            all == view_fields(fields),
            encoded_fields(all, i as int) is Some,
        decreases fields.len() - i,
    {
        if !fields[i].value.can_be_written() {
            proof {
                lemma_refused_fields(all, i as int + 1, fields.len() as int);
            }
            return false;
        }
        i += 1;
    }
    true
}

/// Whether `room` free slots are enough to write each of the items.
fn items_fit(items: &Vec<Value>, room: usize) -> (r: bool)
    ensures
        r == (deepest_item(view_values(items), items.len() as int) <= room),
    decreases items, 0nat,
{
    let ghost all = view_values(items);
    let mut i: usize = 0;
    while i < items.len()
        invariant
            i <= items.len(),
            all == view_values(items),
            deepest_item(all, i as int) <= room,
        decreases items.len() - i,
    {
        if !items[i].fits(room) {
            proof {
                lemma_deepest_item(all, items.len() as int, i as int);
            }
            return false;
        }
        i += 1;
    }
    true
}

/// Whether `room` free slots are enough to write each of the fields.
fn fields_fit(fields: &Vec<Field>, room: usize) -> (r: bool)
    ensures
        r == (deepest_field(view_fields(fields), fields.len() as int) <= room),
    decreases fields, 0nat,
{
    let ghost all = view_fields(fields);
    let mut i: usize = 0;
    while i < fields.len()
        invariant
            i <= fields.len(),
            all == view_fields(fields),
            deepest_field(all, i as int) <= room,
        decreases fields.len() - i,
    {
        if !fields[i].value.fits(room) {
            proof {
                lemma_deepest_field(all, fields.len() as int, i as int);
            }
            return false;
        }
        i += 1;
    }
    true
}

} // verus!
