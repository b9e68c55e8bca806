//! Laws of the protocol: what holds of every value, proved from the
//! definitions the contracts use.

use crate::context::Ambient;
use crate::derive::{field_slot, loaded, prop_key, stored, FieldMeta, HIDDEN_PREFIX};
use crate::function::Descriptor;
use crate::serialize::{
    decoded_field, decoded_fields, decoding, encoded_fields, encoding, Fault,
};
use crate::slot::{bind_key, find_key, has_key, lemma_find_key, SlotView};
use crate::value::{PeekError, PeekFault, PeekValue, PushValue};
use crate::value_model::{FieldKindView, FieldView, KindView, ValueView};
use vstd::prelude::*;
use vstd::utf8::{encode_scalar, encode_utf8, encode_utf8_decode_utf8};

verus! {

/// Whether no two fields have the same name.
pub open spec fn distinct_names(fields: Seq<FieldView>) -> bool {
    forall|i: int, j: int|
        0 <= i < j < fields.len() ==> (#[trigger] fields[i]).name != (#[trigger] fields[j]).name
}

/// Whether `v` is a value of kind `k` that the protocol carries both ways:
/// a boolean, an integer of up to 32 bits, a number of double precision (as
/// an integer where its value is one, else by its bits), a character, a
/// string, the empty value, an optional or wrapped value of such a kind, or
/// a record of such fields under distinct names. A present optional value
/// must not be written as `null` or `undefined`, which read back as absent.
pub open spec fn conforms(v: ValueView, k: KindView) -> bool
    decreases v,
{
    match (v, k) {
        (ValueView::Unit, KindView::Unit) => true,
        (ValueView::UnitStruct, KindView::UnitStruct) => true,
        (ValueView::Bool(_), KindView::Bool) => true,
        (ValueView::I8(_), KindView::I8) => true,
        (ValueView::I16(_), KindView::I16) => true,
        (ValueView::I32(_), KindView::I32) => true,
        (ValueView::U8(_), KindView::U8) => true,
        (ValueView::U16(_), KindView::U16) => true,
        (ValueView::U32(_), KindView::U32) => true,
        (ValueView::Whole(_), KindView::Double) => true,
        (ValueView::Double(_), KindView::Double) => true,
        (ValueView::Char(_), KindView::Char) => true,
        (ValueView::Text(_), KindView::Text) => true,
        (ValueView::Absent, KindView::Optional(_)) => true,
        (ValueView::Present(inner), KindView::Optional(kind)) => conforms(*inner, *kind) && !(
        encoding(*inner) matches Some(slot) && slot.is_absent()),
        (ValueView::Newtype(inner), KindView::Newtype(kind)) => conforms(*inner, *kind),
        (ValueView::Record(fields), KindView::Record(kinds)) => {
            &&& fields.len() == kinds.len()
            &&& distinct_names(fields)
            &&& forall|i: int|
                0 <= i < fields.len() ==> (#[trigger] fields[i]).name == kinds[i].name && conforms(
                    fields[i].value,
                    kinds[i].kind,
                )
        },
        _ => false,
    }
}

/// The properties that the first `n` fields are written as, where their
/// names are distinct: one property for each field, in order.
pub open spec fn written(fields: Seq<FieldView>, n: int) -> Seq<(Seq<u8>, SlotView)> {
    Seq::new(n as nat, |i: int| (encode_utf8(fields[i].name), encoding(fields[i].value).unwrap()))
}

/// Two names with the same bytes are the same name.
pub proof fn lemma_names_by_bytes(a: Seq<char>, b: Seq<char>)
    requires
        encode_utf8(a) == encode_utf8(b),
    ensures
        a == b,
{
    encode_utf8_decode_utf8(a);
    encode_utf8_decode_utf8(b);
}

/// Round trip: a value that the protocol carries both ways is written, and
/// what was written reads back as the same value.
pub proof fn lemma_round_trip(v: ValueView, k: KindView)
    requires
        conforms(v, k),
    ensures
        encoding(v) is Some,
        decoding(encoding(v).unwrap(), k) == Ok::<ValueView, Fault>(v),
    decreases v, 0nat,
{
    match (v, k) {
        (ValueView::Present(inner), KindView::Optional(kind)) => {
            lemma_round_trip(*inner, *kind);
        },
        (ValueView::Newtype(inner), KindView::Newtype(kind)) => {
            lemma_round_trip(*inner, *kind);
        },
        (ValueView::Record(fields), KindView::Record(kinds)) => {
            lemma_round_trip_fields(fields, kinds, fields.len() as int);
            let read = Seq::new(
                fields.len(),
                |i: int| FieldView { name: kinds[i].name, value: fields[i].value },
            );
            assert(read =~= fields);
            let props = written(fields, fields.len() as int);
            assert(encoding(v) == Some(SlotView::Object(props)));
            assert(decoded_fields(props, kinds, fields.len() as int) == Ok::<Seq<FieldView>, Fault>(
                read,
            ));
            assert(kinds.len() == fields.len());
        },
        (ValueView::Char(c), KindView::Char) => {
            assert(seq![c].len() == 1);
            assert(seq![c][0] == c);
        },
        _ => {},
    }
}

/// The round trip of the first `n` fields of a record.
pub proof fn lemma_round_trip_fields(fields: Seq<FieldView>, kinds: Seq<FieldKindView>, n: int)
    requires
        0 <= n <= fields.len(),
        conforms(ValueView::Record(fields), KindView::Record(kinds)),
    ensures
        encoded_fields(fields, n) == Some(written(fields, n)),
        forall|m: int|
            0 <= m <= n ==> #[trigger] decoded_fields(written(fields, fields.len() as int), kinds, m)
                == Ok::<Seq<FieldView>, Fault>(
                Seq::new(m as nat, |i: int| FieldView { name: kinds[i].name, value: fields[i].value }),
            ),
    decreases fields, n,
{
    let all = written(fields, fields.len() as int);
    if n == 0 {
        assert(written(fields, 0) =~= Seq::empty());
        assert(Seq::new(0nat, |i: int| FieldView { name: kinds[i].name, value: fields[i].value })
            =~= Seq::<FieldView>::empty());
    } else {
        lemma_round_trip_fields(fields, kinds, n - 1);
        let last = fields[n - 1];
        assert(conforms(last.value, kinds[n - 1].kind));
        lemma_round_trip(last.value, kinds[n - 1].kind);
        let key = encode_utf8(last.name);
        let before = written(fields, n - 1);
        // The key is new among the properties written so far.
        lemma_find_key(before, key);
        if find_key(before, key) < before.len() {
            let at = find_key(before, key);
            lemma_names_by_bytes(fields[at].name, last.name);
            assert(fields[at].name != fields[n - 1].name);
        }
        assert(bind_key(before, key, encoding(last.value).unwrap()) =~= written(fields, n));
        // Reading finds the property at the field's own position.
        lemma_find_key(all, key);
        assert(all[n - 1].0 == key);
        let found = find_key(all, key);
        if found != n - 1 {
            lemma_names_by_bytes(fields[found].name, last.name);
            assert(fields[found].name != fields[n - 1].name);
        }
        assert(decoded_field(all, kinds[n - 1]) == Ok::<ValueView, Fault>(last.value));
        let so_far = Seq::new(
            (n - 1) as nat,
            |i: int| FieldView { name: kinds[i].name, value: fields[i].value },
        );
        assert(decoded_fields(all, kinds, n - 1) == Ok::<Seq<FieldView>, Fault>(so_far));
        assert(so_far.push(FieldView { name: kinds[n - 1].name, value: last.value }) =~= Seq::new(
            n as nat,
            |i: int| FieldView { name: kinds[i].name, value: fields[i].value },
        ));
    }
}

/// Round trip of `bool`: what a value is written as reads back as the
/// same value.
pub proof fn lemma_round_trip_bool(v: bool, res: Result<bool, PeekError>)
    requires
        <bool as PeekValue>::reads(v.slot(), res),
    ensures
        res == Ok::<bool, PeekError>(v),
{
}

/// Round trip of `u8`: what a value is written as reads back as the
/// same value.
pub proof fn lemma_round_trip_u8(v: u8, res: Result<u8, PeekError>)
    requires
        <u8 as PeekValue>::reads(v.slot(), res),
    ensures
        res == Ok::<u8, PeekError>(v),
{
}

/// Round trip of `u16`: what a value is written as reads back as the
/// same value.
pub proof fn lemma_round_trip_u16(v: u16, res: Result<u16, PeekError>)
    requires
        <u16 as PeekValue>::reads(v.slot(), res),
    ensures
        res == Ok::<u16, PeekError>(v),
{
}

/// Round trip of `u32`: what a value is written as reads back as the
/// same value.
pub proof fn lemma_round_trip_u32(v: u32, res: Result<u32, PeekError>)
    requires
        <u32 as PeekValue>::reads(v.slot(), res),
    ensures
        res == Ok::<u32, PeekError>(v),
{
}

/// Round trip of `i8`: what a value is written as reads back as the
/// same value.
pub proof fn lemma_round_trip_i8(v: i8, res: Result<i8, PeekError>)
    requires
        <i8 as PeekValue>::reads(v.slot(), res),
    ensures
        res == Ok::<i8, PeekError>(v),
{
}

/// Round trip of `i16`: what a value is written as reads back as the
/// same value.
pub proof fn lemma_round_trip_i16(v: i16, res: Result<i16, PeekError>)
    requires
        <i16 as PeekValue>::reads(v.slot(), res),
    ensures
        res == Ok::<i16, PeekError>(v),
{
}

/// Round trip of `i32`: what a value is written as reads back as the
/// same value.
pub proof fn lemma_round_trip_i32(v: i32, res: Result<i32, PeekError>)
    requires
        <i32 as PeekValue>::reads(v.slot(), res),
    ensures
        res == Ok::<i32, PeekError>(v),
{
}

/// Round trip of strings: what a string is written as reads back as a
/// string of the same characters.
pub proof fn lemma_round_trip_string(v: String, res: Result<String, PeekError>)
    requires
        <String as PeekValue>::reads(v.slot(), res),
    ensures
        res matches Ok(read) && read@ == v@,
{
}

/// Optional merge: `null` and `undefined` both read back as the absent
/// value, whatever the kind of the optional value.
pub proof fn lemma_optional_merge(kind: KindView)
    ensures
        decoding(SlotView::Null, KindView::Optional(Box::new(kind))) == Ok::<ValueView, Fault>(
            ValueView::Absent,
        ),
        decoding(SlotView::Undefined, KindView::Optional(Box::new(kind))) == Ok::<
            ValueView,
            Fault,
        >(ValueView::Absent),
{
}

/// Optional merge in the value protocol: reading `null` or `undefined` as
/// an optional value of any readable type gives `None`.
pub proof fn lemma_optional_merge_typed<T: PeekValue>(slot: SlotView, res: Result<Option<T>, PeekError>)
    requires
        slot is Null || slot is Undefined,
        <Option<T> as PeekValue>::reads(slot, res),
    ensures
        res matches Ok(None),
{
}

/// The raw-buffer path: a byte buffer is written as one raw buffer with the
/// same bytes, never as an array, and reads back as the same bytes.
pub proof fn lemma_buffer_round_trip(bytes: &[u8], res: Result<Vec<u8>, PeekError>)
    requires
        <Vec<u8> as PeekValue>::reads(bytes.slot(), res),
    ensures
        bytes.slot() == SlotView::Buffer(bytes@),
        !(bytes.slot() is Array),
        res matches Ok(read) && read@ == bytes@,
{
}

/// The first byte of the encoding of a character is never the hidden
/// prefix.
pub proof fn lemma_scalar_start(c: char)
    ensures
        encode_scalar(c as u32).len() > 0,
        encode_scalar(c as u32)[0] != HIDDEN_PREFIX,
{
    let s = c as u32;
    assert((s & 0x7F) as u8 != 0xffu8) by (bit_vector);
    assert(0xC0u8 | ((s >> 6) & 0x1F) as u8 != 0xffu8) by (bit_vector);
    assert(0xE0u8 | ((s >> 12) & 0x0F) as u8 != 0xffu8) by (bit_vector);
    assert(0xF0u8 | ((s >> 18) & 0x7) as u8 != 0xffu8) by (bit_vector);
}

/// Hidden-field exclusion: the key of a hidden field starts with the hidden
/// prefix, and no string has that key as its bytes. A hidden field is
/// therefore never among the properties keyed by a plain string, and it
/// never takes the place of a plain field.
pub proof fn lemma_hidden_key_is_no_string(name: Seq<char>, plain: Seq<char>)
    ensures
        prop_key(name, true).len() > 0,
        prop_key(name, true)[0] == HIDDEN_PREFIX,
        prop_key(name, true) != encode_utf8(plain),
        prop_key(name, true) != prop_key(plain, false),
{
    let hidden = prop_key(name, true);
    assert(hidden[0] == HIDDEN_PREFIX);
    if plain.len() > 0 {
        lemma_scalar_start(plain[0]);
        let first = encode_scalar(plain[0] as u32);
        assert(encode_utf8(plain) == first + encode_utf8(plain.drop_first()));
        assert(encode_utf8(plain)[0] == first[0]);
    } else {
        assert(encode_utf8(plain).len() == 0);
    }
}

/// A field stored under its hidden key is not found under any plain
/// string key of an object that had no such property before.
pub proof fn lemma_hidden_field_excluded(
    props: Seq<(Seq<u8>, SlotView)>,
    name: Seq<char>,
    value: SlotView,
    plain: Seq<char>,
)
    ensures
        has_key(bind_key(props, prop_key(name, true), value), encode_utf8(plain)) == has_key(
            props,
            encode_utf8(plain),
        ),
{
    let hidden = prop_key(name, true);
    let key = encode_utf8(plain);
    lemma_hidden_key_is_no_string(name, plain);
    lemma_find_key(props, hidden);
    let after = bind_key(props, hidden, value);
    if has_key(props, key) {
        let i = choose|i: int| 0 <= i < props.len() && (#[trigger] props[i]).0 == key;
        assert(after[i].0 == key);
    }
    if has_key(after, key) {
        let i = choose|i: int| 0 <= i < after.len() && (#[trigger] after[i]).0 == key;
        assert(i < props.len() && props[i].0 == key);
    }
}

/// Arity validation: a call on a stack that holds fewer values than the
/// function has arguments is never let in, whatever the values are.
pub proof fn lemma_too_few_arguments(descriptor: Descriptor, stack: Seq<SlotView>, ambient: Ambient)
    requires
        stack.len() < descriptor.arg_kinds.len(),
    ensures
        !descriptor.admits(stack, ambient),
{
}

/// Whether no two fields have both the same name and the same hiding.
pub open spec fn distinct_keys(fields: Seq<FieldMeta>) -> bool {
    forall|i: int, j: int|
        0 <= i < j < fields.len() ==> !((#[trigger] fields[i]).name@ == (#[trigger] fields[j]).name@
            && fields[i].is_hidden == fields[j].is_hidden)
}

/// A key tells the name of its field, and whether the field is hidden.
pub proof fn lemma_key_tells_field(a: Seq<char>, a_hidden: bool, b: Seq<char>, b_hidden: bool)
    requires
        prop_key(a, a_hidden) == prop_key(b, b_hidden),
    ensures
        a == b,
        a_hidden == b_hidden,
{
    if a_hidden && b_hidden {
        let ka = prop_key(a, true);
        let kb = prop_key(b, true);
        assert(encode_utf8(a) =~= ka.subrange(1, ka.len() as int));
        assert(encode_utf8(b) =~= kb.subrange(1, kb.len() as int));
        lemma_names_by_bytes(a, b);
    } else if a_hidden {
        lemma_hidden_key_is_no_string(a, b);
    } else if b_hidden {
        lemma_hidden_key_is_no_string(b, a);
    } else {
        lemma_names_by_bytes(a, b);
    }
}

/// The properties that the first `n` fields are stored as, where their keys
/// are distinct: one property for each field, in order.
pub open spec fn kept(fields: Seq<FieldMeta>, values: Seq<ValueView>, n: int) -> Seq<
    (Seq<u8>, SlotView),
> {
    Seq::new(
        n as nat,
        |i: int| (prop_key(fields[i].name@, fields[i].is_hidden), encoding(values[i]).unwrap()),
    )
}

/// Round trip of records: a record whose fields have distinct keys and
/// hold values that the protocol carries both ways reads back, field by
/// field, as the values that were written. A hidden field and a plain
/// field of the same name do not get in each other's way.
pub proof fn lemma_record_round_trip(
    fields: Seq<FieldMeta>,
    values: Seq<ValueView>,
    kinds: Seq<KindView>,
)
    requires
        fields.len() == values.len(),
        fields.len() == kinds.len(),
        distinct_keys(fields),
        forall|i: int| 0 <= i < values.len() ==> conforms(#[trigger] values[i], kinds[i]),
    ensures
        loaded(
            SlotView::Object(stored(fields, values, fields.len() as int)),
            fields,
            kinds,
            fields.len() as int,
        ) == Ok::<Seq<ValueView>, PeekFault>(values),
{
    let len = fields.len() as int;
    lemma_record_kept(fields, values, kinds, len);
    lemma_record_loaded(fields, values, kinds, len);
    assert(values.subrange(0, len) =~= values);
}

/// With distinct keys every field is stored as a property of its own.
pub proof fn lemma_record_kept(
    fields: Seq<FieldMeta>,
    values: Seq<ValueView>,
    kinds: Seq<KindView>,
    n: int,
)
    requires
        0 <= n <= fields.len(),
        fields.len() == values.len(),
        fields.len() == kinds.len(),
        distinct_keys(fields),
        forall|i: int| 0 <= i < values.len() ==> conforms(#[trigger] values[i], kinds[i]),
    ensures
        stored(fields, values, n) == kept(fields, values, n),
    decreases n,
{
    if n == 0 {
        assert(kept(fields, values, 0) =~= Seq::empty());
    } else {
        lemma_record_kept(fields, values, kinds, n - 1);
        let before = kept(fields, values, n - 1);
        let key = prop_key(fields[n - 1].name@, fields[n - 1].is_hidden);
        lemma_find_key(before, key);
        if find_key(before, key) < before.len() {
            let at = find_key(before, key);
            lemma_key_tells_field(
                fields[at].name@,
                fields[at].is_hidden,
                fields[n - 1].name@,
                fields[n - 1].is_hidden,
            );
            assert(fields[at].name@ == fields[n - 1].name@);
        }
        assert(conforms(values[n - 1], kinds[n - 1]));
        lemma_round_trip(values[n - 1], kinds[n - 1]);
        assert(bind_key(before, key, encoding(values[n - 1]).unwrap()) =~= kept(fields, values, n));
    }
}

/// With distinct keys the first `n` fields read back as the first `n`
/// values.
pub proof fn lemma_record_loaded(
    fields: Seq<FieldMeta>,
    values: Seq<ValueView>,
    kinds: Seq<KindView>,
    n: int,
)
    requires
        0 <= n <= fields.len(),
        fields.len() == values.len(),
        fields.len() == kinds.len(),
        distinct_keys(fields),
        forall|i: int| 0 <= i < values.len() ==> conforms(#[trigger] values[i], kinds[i]),
    ensures
        loaded(
            SlotView::Object(stored(fields, values, fields.len() as int)),
            fields,
            kinds,
            n,
        ) == Ok::<Seq<ValueView>, PeekFault>(values.subrange(0, n)),
    decreases n,
{
    let len = fields.len() as int;
    lemma_record_kept(fields, values, kinds, len);
    let props = kept(fields, values, len);
    let slot = SlotView::Object(props);
    if n == 0 {
        assert(values.subrange(0, 0) =~= Seq::<ValueView>::empty());
    } else {
        lemma_record_loaded(fields, values, kinds, n - 1);
        let key = prop_key(fields[n - 1].name@, fields[n - 1].is_hidden);
        lemma_find_key(props, key);
        assert(props[n - 1].0 == key);
        let found = find_key(props, key);
        if found != n - 1 {
            lemma_key_tells_field(
                fields[found].name@,
                fields[found].is_hidden,
                fields[n - 1].name@,
                fields[n - 1].is_hidden,
            );
            assert(fields[found].name@ == fields[n - 1].name@);
        }
        assert(field_slot(slot, key) == Some(encoding(values[n - 1]).unwrap()));
        assert(conforms(values[n - 1], kinds[n - 1]));
        lemma_round_trip(values[n - 1], kinds[n - 1]);
        assert(values.subrange(0, n - 1).push(values[n - 1]) =~= values.subrange(0, n));
    }
}

/// A missing field is told by its name: the failures for two fields of
/// different names are different.
pub proof fn lemma_missing_fields_differ(a: Seq<char>, b: Seq<char>)
    requires
        a != b,
    ensures
        Fault::IncorrectField(a).text() != Fault::IncorrectField(b).text(),
{
    let prefix = "incorrect field "@;
    let ta = prefix + a;
    let tb = prefix + b;
    if ta == tb {
        assert(a =~= ta.subrange(prefix.len() as int, ta.len() as int));
        assert(b =~= tb.subrange(prefix.len() as int, tb.len() as int));
    }
}

} // verus!
