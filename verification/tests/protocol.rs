use duktape::context::Context;
use duktape::function::{
    call_result, read_argument, read_receiver, return_value, Descriptor, Entry, Function,
};
use duktape::serialize::{DuktapeDeserializer, DuktapeSerializer, Error};
use duktape::slot::{Slot, Tag};
use duktape::value::{PeekError, PeekValue, PushValue, SerdeValue};
use duktape::value_model::{Field, FieldKind, Kind, Value};

fn field(name: &str, value: Value) -> Field {
    Field { name: name.to_string(), value }
}

fn field_kind(name: &str, kind: Kind) -> FieldKind {
    FieldKind { name: name.to_string(), kind }
}

fn text(v: &Value) -> String {
    match v {
        Value::Text(s) => s.clone(),
        _ => panic!("not a string"),
    }
}

fn number(v: &Value) -> u32 {
    match v {
        Value::U32(n) => *n,
        _ => panic!("not a number"),
    }
}

fn fields(v: &Value) -> &Vec<Field> {
    match v {
        Value::Record(fields) => fields,
        _ => panic!("not a record"),
    }
}

fn peek_as(ctx: &mut Context, idx: i32, kind: &Kind) -> Result<Value, PeekError> {
    SerdeValue::peek_as(ctx, idx, kind).map(|v| v.0)
}

fn serde_text(e: PeekError) -> String {
    match e {
        PeekError::Serde(e) => e.message(),
        _ => panic!("not a failure of the bridge"),
    }
}

/// A two-argument adder behind a trampoline.
struct Bla;

impl Function for Bla {
    fn args(&self) -> i32 {
        2
    }

    fn ptr(&self) -> u64 {
        1
    }

    fn call(&self, ctx: &mut Context) -> i32 {
        let descriptor =
            Descriptor { arg_kinds: vec![Kind::U32, Kind::U32], this_kind: None, returns: true };
        match descriptor.enter(ctx) {
            Entry::Rejected(code) => code,
            Entry::Failed(_) => -1,
            Entry::Ready { args, .. } => {
                let a = number(&args[0]);
                let b = number(&args[1]);
                assert_eq!(a, 1);
                assert_eq!(b, 2);
                descriptor.leave(ctx, Some(&Value::U32(a + b)))
            }
        }
    }
}

/// A function that takes a record and returns its counter.
struct DoIt;

impl Function for DoIt {
    fn args(&self) -> i32 {
        1
    }

    fn ptr(&self) -> u64 {
        2
    }

    fn call(&self, ctx: &mut Context) -> i32 {
        let pdo = Kind::Record(vec![
            field_kind("data", Kind::Text),
            field_kind("counter", Kind::U32),
        ]);
        let descriptor = Descriptor { arg_kinds: vec![pdo], this_kind: None, returns: true };
        match descriptor.enter(ctx) {
            Entry::Rejected(code) => code,
            Entry::Failed(_) => -1,
            Entry::Ready { args, .. } => {
                let counter = number(&fields(&args[0])[1].value);
                descriptor.leave(ctx, Some(&Value::U32(counter)))
            }
        }
    }
}

#[test]
fn deserialize_obj() {
    let mut ctx = Context::default();
    let t1 = Value::Record(vec![
        field("hello", Value::Text("world".to_string())),
        field("num", Value::U32(42)),
    ]);
    ctx.push(SerdeValue(&t1));
    let kind = Kind::Record(vec![field_kind("hello", Kind::Text), field_kind("num", Kind::U32)]);
    let t2 = peek_as(&mut ctx, 0, &kind).unwrap();
    let read = fields(&t2);
    assert_eq!(read.len(), 2);
    assert_eq!(read[0].name, "hello");
    assert_eq!(text(&read[0].value), "world");
    assert_eq!(read[1].name, "num");
    assert_eq!(number(&read[1].value), 42);
    assert_eq!(ctx.stack_len(), 1);
}

#[test]
fn adder() {
    let mut ctx = Context::default();
    ctx.push(&1u32);
    ctx.push(&2u32);
    let a = ctx.peek::<u32>(0).unwrap();
    assert_eq!(a, 1u32);
    let b = ctx.peek::<u32>(1).unwrap();
    assert_eq!(b, 2u32);
    ctx.call_function(&Bla).unwrap();
    let rv = ctx.peek::<u32>(-1).unwrap();
    assert_eq!(3, rv);
}

#[test]
fn test_adder() {
    let mut ctx = Context::default();
    ctx.push(&1u32);
    ctx.push(&2u32);
    let a = ctx.peek::<u32>(0).unwrap();
    assert_eq!(a, 1u32);
    let b = ctx.peek::<u32>(1).unwrap();
    assert_eq!(b, 2u32);
    ctx.call_function(&Bla).unwrap();
    let rv = ctx.peek::<u32>(-1).unwrap();
    assert_eq!(3, rv);
    assert_eq!(ctx.stack_len(), 1);
}

#[test]
fn object() {
    let mut ctx = Context::default();
    let data = Value::Record(vec![
        field("data", Value::Text("hello".to_string())),
        field("counter", Value::U32(3)),
    ]);
    ctx.push(SerdeValue(&data));
    ctx.call_function(&DoIt).unwrap();
}

#[test]
fn test_object() {
    let mut ctx = Context::default();
    let data = Value::Record(vec![
        field("data", Value::Text("hello".to_string())),
        field("counter", Value::U32(3)),
    ]);
    ctx.push(SerdeValue(&data));
    ctx.call_function(&DoIt).unwrap();
    assert_eq!(ctx.stack_len(), 1);
    assert_eq!(ctx.peek::<u32>(-1).unwrap(), 3);
}

#[test]
fn arity_is_validated_before_anything_is_read() {
    let mut ctx = Context::default();
    ctx.push(&1u32);
    let res = ctx.call_function(&Bla);
    match res {
        Err(duktape::Error::Message(m)) => assert_eq!(m, "function failed"),
        Ok(()) => panic!("a call with one argument of two was let in"),
    }
    assert_eq!(ctx.stack_len(), 1);
    assert_eq!(ctx.peek::<u32>(0).unwrap(), 1);
    let descriptor =
        Descriptor { arg_kinds: vec![Kind::U32, Kind::U32], this_kind: None, returns: true };
    assert!(matches!(descriptor.enter(&mut ctx), Entry::Rejected(-1)));
    assert_eq!(ctx.stack_len(), 1);
}

#[test]
fn an_argument_that_cannot_be_read_fails_the_call_with_a_message() {
    let mut ctx = Context::default();
    ctx.push(&1u32);
    ctx.push("two".to_string());
    let descriptor =
        Descriptor { arg_kinds: vec![Kind::U32, Kind::U32], this_kind: None, returns: true };
    match descriptor.enter(&mut ctx) {
        Entry::Failed(e) => assert_eq!(e.message(), "incorrect type"),
        _ => panic!("a string was read as a number"),
    }
    assert_eq!(ctx.stack_len(), 2);
    // The first argument that cannot be read decides.
    let descriptor =
        Descriptor { arg_kinds: vec![Kind::I64, Kind::U32], this_kind: None, returns: true };
    match descriptor.enter(&mut ctx) {
        Entry::Failed(e) => assert_eq!(e.message(), "not implemented"),
        _ => panic!("a 64-bit integer was read"),
    }
    assert_eq!(ctx.stack_len(), 2);
}

#[test]
fn arguments_are_read_in_call_order_and_removed() {
    let mut ctx = Context::default();
    ctx.push(true);
    ctx.push(&7u32);
    ctx.push("x".to_string());
    let descriptor =
        Descriptor { arg_kinds: vec![Kind::U32, Kind::Text], this_kind: None, returns: false };
    match descriptor.enter(&mut ctx) {
        Entry::Ready { this, args } => {
            assert!(this.is_none());
            assert_eq!(number(&args[0]), 7);
            assert_eq!(text(&args[1]), "x");
        }
        _ => panic!("rejected"),
    }
    assert_eq!(ctx.stack_len(), 1);
    assert_eq!(descriptor.leave(&mut ctx, None), 0);
    assert_eq!(ctx.stack_len(), 1);
    assert!(ctx.peek::<bool>(0).unwrap());
}

#[test]
fn a_method_reads_its_receiver_from_the_call_in_progress() {
    let mut ctx = Context::default();
    let obj = Value::Record(vec![field("x", Value::U32(9))]);
    ctx.push(SerdeValue(&obj));
    ctx.set_this();
    ctx.push(&5u32);
    let descriptor = Descriptor {
        arg_kinds: vec![Kind::U32],
        this_kind: Some(Kind::Record(vec![field_kind("x", Kind::U32)])),
        returns: true,
    };
    match descriptor.enter(&mut ctx) {
        Entry::Ready { this, args } => {
            assert_eq!(number(&args[0]), 5);
            let this = this.unwrap();
            assert_eq!(number(&fields(&this)[0].value), 9);
        }
        _ => panic!("rejected"),
    }
    assert_eq!(ctx.stack_len(), 0);
    assert_eq!(descriptor.leave(&mut ctx, Some(&Value::U32(14))), 1);
    assert_eq!(ctx.peek::<u32>(-1).unwrap(), 14);
}

#[test]
fn a_method_without_a_readable_receiver_fails_with_a_message() {
    let mut ctx = Context::default();
    ctx.push(&5u32);
    let descriptor = Descriptor {
        arg_kinds: vec![Kind::U32],
        this_kind: Some(Kind::Record(vec![field_kind("x", Kind::U32)])),
        returns: true,
    };
    match descriptor.enter(&mut ctx) {
        Entry::Failed(e) => assert_eq!(e.message(), "incorrect type"),
        _ => panic!("undefined was read as a record"),
    }
    assert_eq!(ctx.stack_len(), 1);
}

#[test]
fn return_codes() {
    assert!(call_result(0).is_ok());
    assert!(call_result(1).is_ok());
    match call_result(-1) {
        Err(duktape::Error::Message(m)) => assert_eq!(m, "function failed"),
        Ok(()) => panic!("a negative code passed"),
    }
    assert!(call_result(i32::MIN).is_err());
}

#[test]
fn scalars_round_trip() {
    let mut ctx = Context::default();
    ctx.push(true);
    assert_eq!(ctx.pop_value::<bool>().unwrap(), true);
    ctx.push(false);
    assert_eq!(ctx.pop_value::<bool>().unwrap(), false);
    for v in [0u8, 1, 127, 128, 255] {
        ctx.push(v);
        assert_eq!(ctx.pop_value::<u8>().unwrap(), v);
    }
    for v in [0u16, 255, 256, u16::MAX] {
        ctx.push(v);
        assert_eq!(ctx.pop_value::<u16>().unwrap(), v);
    }
    for v in [0u32, 42, 65536, u32::MAX] {
        ctx.push(v);
        assert_eq!(ctx.pop_value::<u32>().unwrap(), v);
    }
    for v in [i8::MIN, -1, 0, 1, i8::MAX] {
        ctx.push(v);
        assert_eq!(ctx.pop_value::<i8>().unwrap(), v);
    }
    for v in [i16::MIN, -1, 0, 1, i16::MAX] {
        ctx.push(v);
        assert_eq!(ctx.pop_value::<i16>().unwrap(), v);
    }
    for v in [i32::MIN, -1, 0, 1, i32::MAX] {
        ctx.push(v);
        assert_eq!(ctx.pop_value::<i32>().unwrap(), v);
    }
    for v in ["", "world", "h\u{e9}llo \u{1f600}"] {
        ctx.push(v.to_string());
        assert_eq!(ctx.pop_value::<String>().unwrap(), v);
    }
    ctx.push(());
    assert_eq!(ctx.stack_len(), 1);
    ctx.pop_value::<()>().unwrap();
    assert_eq!(ctx.stack_len(), 0);
}

#[test]
fn characters_round_trip_as_strings_of_one_character() {
    let mut ctx = Context::default();
    for c in ['a', '\u{e9}', '\u{1f600}'] {
        ctx.push(SerdeValue(&Value::Char(c)));
        assert_eq!(ctx.peek::<String>(-1).unwrap(), c.to_string());
        assert!(matches!(peek_as(&mut ctx, -1, &Kind::Char), Ok(Value::Char(r)) if r == c));
        ctx.pop();
    }
    ctx.push("ab".to_string());
    assert_eq!(serde_text(peek_as(&mut ctx, -1, &Kind::Char).unwrap_err()), "incorrect type");
    ctx.pop();
    ctx.push(String::new());
    assert_eq!(serde_text(peek_as(&mut ctx, -1, &Kind::Char).unwrap_err()), "incorrect type");
}

#[test]
fn numbers_are_clamped_and_then_narrowed() {
    let mut ctx = Context::default();
    ctx.push(&-5i32);
    assert_eq!(ctx.get_uint(-1), 0);
    assert_eq!(ctx.get_int(-1), -5);
    assert_eq!(ctx.peek::<u32>(-1).unwrap(), 0);
    ctx.push(&u32::MAX);
    assert_eq!(ctx.get_int(-1), i32::MAX);
    assert_eq!(ctx.get_uint(-1), u32::MAX);
    assert_eq!(ctx.peek::<i32>(-1).unwrap(), i32::MAX);
    ctx.push(&300u32);
    assert_eq!(ctx.peek::<u8>(-1).unwrap(), 44);
    assert_eq!(ctx.peek::<i8>(-1).unwrap(), 44);
    ctx.push(&-129i32);
    assert_eq!(ctx.peek::<i8>(-1).unwrap(), 127);
    assert_eq!(ctx.peek::<i16>(-1).unwrap(), -129);
    ctx.push_slot(Slot::Number(i64::MAX));
    assert_eq!(ctx.get_int(-1), i32::MAX);
    assert_eq!(ctx.get_uint(-1), u32::MAX);
    ctx.push_slot(Slot::Number(i64::MIN));
    assert_eq!(ctx.get_int(-1), i32::MIN);
    assert_eq!(ctx.get_uint(-1), 0);
}

#[test]
fn a_value_of_another_type_is_a_failure_not_a_panic() {
    let mut ctx = Context::default();
    ctx.push("text".to_string());
    assert_eq!(serde_text(ctx.peek::<u32>(-1).unwrap_err()), "incorrect type");
    assert_eq!(serde_text(ctx.peek::<bool>(-1).unwrap_err()), "incorrect type");
    ctx.push(&1u32);
    assert_eq!(serde_text(ctx.peek::<String>(-1).unwrap_err()), "incorrect type");
    let kind = Kind::Record(vec![field_kind("a", Kind::U32)]);
    assert_eq!(serde_text(peek_as(&mut ctx, -1, &kind).unwrap_err()), "incorrect type");
    assert_eq!(serde_text(peek_as(&mut ctx, -1, &Kind::UnitStruct).unwrap_err()), "incorrect type");
    assert_eq!(ctx.stack_len(), 2);
    assert!(ctx.pop_value::<String>().is_err());
    assert_eq!(ctx.stack_len(), 2);
}

#[test]
fn what_the_protocol_does_not_carry_is_refused_on_the_way_in() {
    let refused = [
        Value::I64(1),
        Value::U64(1),
        Value::Bytes(vec![1, 2]),
        Value::Variant("A".to_string()),
        Value::Mapping(0),
        Value::Present(Box::new(Value::I64(0))),
        Value::Newtype(Box::new(Value::U64(0))),
        Value::Sequence(vec![Value::U8(1), Value::I64(2)]),
        Value::Record(vec![field("a", Value::U8(1)), field("b", Value::Mapping(1))]),
    ];
    for value in refused.iter() {
        let mut ctx = Context::default();
        let mut serializer = DuktapeSerializer::from_ctx(&mut ctx);
        let res = value.serialize(&mut serializer);
        assert!(res == Err(Error::unsupported()));
        assert_eq!(res.unwrap_err().message(), "not implemented");
    }
}

#[test]
fn what_the_protocol_does_not_carry_is_refused_on_the_way_out() {
    let mut ctx = Context::default();
    ctx.push(&1u32);
    let refused = [
        Kind::I64,
        Kind::U64,
        Kind::Str,
        Kind::Bytes,
        Kind::Sequence(Box::new(Kind::U8)),
        Kind::Enum,
        Kind::Mapping,
        Kind::Any,
        Kind::Optional(Box::new(Kind::I64)),
        Kind::Newtype(Box::new(Kind::Any)),
    ];
    for kind in refused.iter() {
        assert_eq!(serde_text(peek_as(&mut ctx, -1, kind).unwrap_err()), "not implemented");
        assert_eq!(ctx.stack_len(), 1);
    }
}

#[test]
fn a_record_without_a_declared_field_is_refused() {
    let mut ctx = Context::default();
    let value = Value::Record(vec![field("hello", Value::Text("world".to_string()))]);
    ctx.push(SerdeValue(&value));
    let kind = Kind::Record(vec![field_kind("hello", Kind::Text), field_kind("num", Kind::U32)]);
    assert_eq!(serde_text(peek_as(&mut ctx, 0, &kind).unwrap_err()), "incorrect field num");
    let other = Kind::Record(vec![field_kind("hello", Kind::Text), field_kind("count", Kind::U32)]);
    assert_eq!(serde_text(peek_as(&mut ctx, 0, &other).unwrap_err()), "incorrect field count");
    assert_eq!(ctx.stack_len(), 1);
    // The first field that cannot be read decides.
    let kind = Kind::Record(vec![field_kind("hello", Kind::U32), field_kind("num", Kind::U32)]);
    assert_eq!(serde_text(peek_as(&mut ctx, 0, &kind).unwrap_err()), "incorrect type");
    assert_eq!(ctx.stack_len(), 1);
}

#[test]
fn records_nest_and_read_back_by_name() {
    let mut ctx = Context::default();
    ctx.push(&0u32);
    let value = Value::Record(vec![
        field("inner", Value::Record(vec![field("deep", Value::I8(-3))])),
        field("flag", Value::Bool(true)),
        field("wrapped", Value::Newtype(Box::new(Value::U16(7)))),
        field("maybe", Value::Present(Box::new(Value::Text("x".to_string())))),
        field("nothing", Value::Absent),
    ]);
    let idx = ctx.push(SerdeValue(&value));
    assert_eq!(idx, 1);
    assert_eq!(ctx.stack_len(), 2);
    // Fields are read by name, in the order they are asked for.
    let kind = Kind::Record(vec![
        field_kind("nothing", Kind::Optional(Box::new(Kind::U8))),
        field_kind("maybe", Kind::Optional(Box::new(Kind::Text))),
        field_kind("wrapped", Kind::Newtype(Box::new(Kind::U16))),
        field_kind("inner", Kind::Record(vec![field_kind("deep", Kind::I8)])),
    ]);
    let read = peek_as(&mut ctx, -1, &kind).unwrap();
    let read = fields(&read);
    assert_eq!(read.len(), 4);
    assert!(matches!(read[0].value, Value::Absent));
    match &read[1].value {
        Value::Present(v) => assert_eq!(text(v), "x"),
        _ => panic!("not present"),
    }
    match &read[2].value {
        Value::Newtype(v) => assert!(matches!(**v, Value::U16(7))),
        _ => panic!("not wrapped"),
    }
    assert!(matches!(fields(&read[3].value)[0].value, Value::I8(-3)));
    assert_eq!(ctx.stack_len(), 2);
}

#[test]
fn a_sequence_becomes_an_array() {
    let mut ctx = Context::default();
    let value = Value::Sequence(vec![Value::U8(0), Value::U8(1), Value::U8(2), Value::U8(3)]);
    ctx.push(SerdeValue(&value));
    assert_eq!(ctx.stack_len(), 1);
    match ctx.peek_slot(0) {
        Slot::Array(items) => {
            assert_eq!(items.len(), 4);
            for (i, item) in items.iter().enumerate() {
                assert!(matches!(item, Slot::Number(n) if *n == i as i64));
            }
        }
        _ => panic!("not an array"),
    }
    let empty = Value::Sequence(Vec::new());
    ctx.push(SerdeValue(&empty));
    assert!(matches!(ctx.peek_slot(-1), Slot::Array(items) if items.is_empty()));
}

#[test]
fn a_repeated_field_name_keeps_the_last_value() {
    let mut ctx = Context::default();
    let value = Value::Record(vec![
        field("a", Value::U8(1)),
        field("b", Value::U8(2)),
        field("a", Value::U8(3)),
    ]);
    ctx.push(SerdeValue(&value));
    match ctx.peek_slot(0) {
        Slot::Object(props) => {
            assert_eq!(props.len(), 2);
            assert_eq!(props[0].key, b"a");
            assert!(matches!(props[0].value, Slot::Number(3)));
            assert_eq!(props[1].key, b"b");
        }
        _ => panic!("not an object"),
    }
}

#[test]
fn both_absent_values_read_back_as_none() {
    let mut ctx = Context::default();
    ctx.push_null();
    ctx.push_undefined();
    assert_eq!(ctx.peek::<Option<u32>>(0).unwrap(), None);
    assert_eq!(ctx.peek::<Option<u32>>(1).unwrap(), None);
    assert_eq!(ctx.peek::<Option<String>>(0).unwrap(), None);
    let kind = Kind::Optional(Box::new(Kind::U32));
    assert!(matches!(peek_as(&mut ctx, 0, &kind), Ok(Value::Absent)));
    assert!(matches!(peek_as(&mut ctx, 1, &kind), Ok(Value::Absent)));
    ctx.push(Some(5u32));
    assert_eq!(ctx.peek::<Option<u32>>(-1).unwrap(), Some(5));
    assert!(matches!(peek_as(&mut ctx, -1, &kind), Ok(Value::Present(v)) if matches!(*v, Value::U32(5))));
    assert!(ctx.peek::<Option<String>>(-1).is_err());
}

#[test]
fn none_is_written_as_undefined() {
    let mut ctx = Context::default();
    let idx = ctx.push(None::<u32>);
    assert_eq!(idx, 0);
    assert_eq!(ctx.tag_at(0), Tag::Undefined);
    ctx.push(SerdeValue(&Value::Absent));
    assert_eq!(ctx.tag_at(1), Tag::Undefined);
    {
        let mut s = DuktapeSerializer::from_ctx(&mut ctx);
        s.serialize_none().unwrap();
    }
    assert_eq!(ctx.tag_at(-1), Tag::Undefined);
    ctx.pop();
    ctx.push(SerdeValue(&Value::Unit));
    assert_eq!(ctx.tag_at(2), Tag::Null);
    ctx.push(SerdeValue(&Value::UnitStruct));
    assert!(matches!(peek_as(&mut ctx, -1, &Kind::UnitStruct), Ok(Value::UnitStruct)));
}

#[test]
fn a_byte_buffer_takes_the_raw_path() {
    let mut ctx = Context::default();
    let bytes: [u8; 4] = [0, 1, 2, 3];
    let idx = ctx.push(&bytes[..]);
    assert_eq!(idx, 0);
    assert_eq!(ctx.tag_at(0), Tag::Buffer);
    assert!(!matches!(ctx.peek_slot(0), Slot::Array(_)));
    let res = ctx.peek::<Vec<u8>>(-1).unwrap();
    assert_eq!(res, &[0, 1, 2, 3]);
    assert_eq!(ctx.get_buffer(0), vec![0, 1, 2, 3]);
    // An array of numbers is no buffer.
    let value = Value::Sequence(vec![Value::U8(0), Value::U8(1)]);
    ctx.push(SerdeValue(&value));
    assert!(matches!(ctx.peek::<Vec<u8>>(-1), Err(PeekError::Type)));
}

/// A method that hands out the bytes of its receiver as a raw buffer.
struct GetData;

impl Function for GetData {
    fn args(&self) -> i32 {
        0
    }

    fn ptr(&self) -> u64 {
        3
    }

    fn call(&self, ctx: &mut Context) -> i32 {
        ctx.push_this();
        if !ctx.get_prop(-1, "data") {
            ctx.pop();
            return -1;
        }
        let data = match ctx.peek::<Vec<u8>>(-1) {
            Ok(data) => data,
            Err(_) => return -1,
        };
        ctx.pop_n(2);
        ctx.push(&data[..]);
        1
    }
}

#[test]
fn a_buffer_read_through_a_method_of_its_record_comes_back_whole() {
    let mut ctx = Context::default();
    let idx = ctx.push_object();
    ctx.push(&[0u8, 1, 2, 3][..]);
    ctx.put_prop_string(idx, "data");
    ctx.register_method(idx as u32, "getData", &GetData);
    assert!(ctx.get_prop(idx, "getData"));
    assert!(matches!(ctx.peek_slot(-1), Slot::Function { entry: 3, nargs: 0 }));
    ctx.pop();
    ctx.set_this();
    ctx.call_function(&GetData).unwrap();
    assert_eq!(ctx.tag_at(-1), Tag::Buffer);
    let res = ctx.peek::<Vec<u8>>(-1).unwrap();
    assert_eq!(res, &[0, 1, 2, 3]);
}

#[test]
fn the_deserializer_reads_one_index_and_leaves_the_stack() {
    let mut ctx = Context::default();
    ctx.push(&7u32);
    ctx.push("s".to_string());
    {
        let mut d = DuktapeDeserializer::from_ctx(&mut ctx, 0);
        assert!(matches!(d.deserialize_u32(), Ok(Value::U32(7))));
        assert!(matches!(d.deserialize_u8(), Ok(Value::U8(7))));
        assert!(d.deserialize_string().is_err());
        assert!(matches!(d.deserialize_unit(), Ok(Value::Unit)));
    }
    {
        let mut d = DuktapeDeserializer::from_ctx(&mut ctx, -1);
        assert_eq!(text(&d.deserialize_string().unwrap()), "s");
        assert!(matches!(d.deserialize_char(), Ok(Value::Char('s'))));
        assert_eq!(d.deserialize_any().unwrap_err().message(), "not implemented");
        assert_eq!(d.deserialize_str().unwrap_err().message(), "not implemented");
        assert_eq!(d.deserialize_seq().unwrap_err().message(), "not implemented");
    }
    assert_eq!(ctx.stack_len(), 2);
}

#[test]
fn the_serializer_builds_a_record_event_by_event() {
    let mut ctx = Context::default();
    {
        let mut s = DuktapeSerializer::from_ctx(&mut ctx);
        s.serialize_struct(2).unwrap();
        s.serialize_field("hello", &Value::Text("world".to_string())).unwrap();
        s.serialize_field("num", &Value::U32(42)).unwrap();
        s.end().unwrap();
        assert!(s.objects.is_empty());
        // With nothing under construction the end changes nothing.
        s.end().unwrap();
        assert!(s.objects.is_empty());
        let mut seq = s.serialize_seq(None).unwrap();
        assert_eq!(seq.obj_id, 1);
        s.serialize_element(&mut seq, &Value::Bool(true)).unwrap();
        s.serialize_element(&mut seq, &Value::Bool(false)).unwrap();
        assert_eq!(seq.array_idx, 2);
        s.end().unwrap();
    }
    assert_eq!(ctx.stack_len(), 2);
    assert!(ctx.get_prop(0, "num"));
    assert_eq!(ctx.get_uint(-1), 42);
    ctx.pop();
    assert!(ctx.get_prop(0, "hello"));
    assert_eq!(ctx.get_string(-1), "world");
    ctx.pop();
    assert!(matches!(ctx.peek_slot(1), Slot::Array(items) if items.len() == 2));
}

#[test]
fn the_messages_of_the_bridge() {
    assert_eq!(Error::unsupported().message(), "not implemented");
    assert_eq!(Error::incorrect_field("num").message(), "incorrect field num");
    assert!(Error::incorrect_field("a") != Error::incorrect_field("b"));
    assert_eq!(Error::incorrect_type().message(), "incorrect type");
    assert!(Error::unsupported() == Error::Message("not implemented".to_string()));
    assert!(Error::unsupported() != Error::incorrect_field(""));
    assert_eq!(PeekError::Prop("num".to_string()).message(), "missing property num");
    assert_eq!(PeekError::Serde(Error::unsupported()).message(), "not implemented");
    assert_eq!(PeekError::Type.message(), "incorrect type");
    assert!(matches!(PeekError::from(Error::unsupported()), PeekError::Serde(_)));
}

#[test]
fn pop_reads_the_top_and_removes_it_only_on_success() {
    let mut ctx = Context::default();
    ctx.push(&1u32);
    ctx.push(&2u32);
    assert_eq!(<u32 as PeekValue>::pop(&mut ctx).unwrap(), 2);
    assert_eq!(ctx.stack_len(), 1);
    assert!(<String as PeekValue>::pop(&mut ctx).is_err());
    assert_eq!(ctx.stack_len(), 1);
    assert_eq!(7u32.push_to(&mut ctx), 1);
    assert_eq!(<u32 as PeekValue>::peek_at(&mut ctx, 1).unwrap(), 7);
}

#[test]
fn an_adder_called_through_the_engine_gives_the_sum() {
    let mut ctx = Context::default();
    ctx.register_function("bla", &Bla);
    assert!(ctx.get_global_str("bla"));
    ctx.push(&1u32);
    ctx.push(&2u32);
    ctx.call(2, &Bla).unwrap();
    assert_eq!(ctx.stack_len(), 1);
    assert_eq!(ctx.peek::<u32>(-1).unwrap(), 3);
}

#[test]
fn a_call_replaces_the_callable_and_its_arguments_by_one_slot() {
    let mut ctx = Context::default();
    ctx.push("below".to_string());
    ctx.push_function(&DoIt);
    let data = Value::Record(vec![
        field("data", Value::Text("hello".to_string())),
        field("counter", Value::U32(3)),
    ]);
    ctx.push(SerdeValue(&data));
    ctx.call(1, &DoIt).unwrap();
    assert_eq!(ctx.stack_len(), 2);
    assert_eq!(ctx.peek::<String>(0).unwrap(), "below");
    assert_eq!(ctx.peek::<u32>(1).unwrap(), 3);
}

#[test]
fn a_failed_call_leaves_its_description() {
    let mut ctx = Context::default();
    ctx.push_function(&Bla);
    ctx.push(&1u32);
    match ctx.call(1, &Bla) {
        Err(e) => assert_eq!(e.message(), "function failed"),
        Ok(()) => panic!("a call with one argument of two succeeded"),
    }
    assert_eq!(ctx.stack_len(), 1);
    assert_eq!(ctx.get_string(-1), "function failed");
    // What is no callable cannot be called, nor a callable as another function.
    ctx.push(&2u32);
    match ctx.call(1, &Bla) {
        Err(e) => assert_eq!(e.message(), "not callable"),
        Ok(()) => panic!("a string was called"),
    }
    assert_eq!(ctx.stack_len(), 1);
    assert_eq!(ctx.get_string(-1), "not callable");
    ctx.push_function(&DoIt);
    match ctx.call(0, &Bla) {
        Err(e) => assert_eq!(e.message(), "not callable"),
        Ok(()) => panic!("a callable ran as another function"),
    }
    assert_eq!(ctx.stack_len(), 2);
}

/// A function without a result.
struct Nothing;

impl Function for Nothing {
    fn args(&self) -> i32 {
        -1
    }

    fn ptr(&self) -> u64 {
        9
    }

    fn call(&self, ctx: &mut Context) -> i32 {
        ctx.push_int(5);
        0
    }
}

#[test]
fn a_call_without_a_result_leaves_undefined() {
    let mut ctx = Context::default();
    ctx.push_function(&Nothing);
    ctx.push(&1u32);
    ctx.push(&2u32);
    ctx.push(&3u32);
    ctx.call(3, &Nothing).unwrap();
    assert_eq!(ctx.stack_len(), 1);
    assert_eq!(ctx.tag_at(0), Tag::Undefined);
}

/// A function of any number of arguments that joins them with commas.
struct Print;

impl Function for Print {
    fn args(&self) -> i32 {
        -1
    }

    fn ptr(&self) -> u64 {
        4
    }

    fn call(&self, ctx: &mut Context) -> i32 {
        let mut parts = Vec::new();
        for idx in 0..ctx.stack_len() {
            parts.push(match ctx.peek_slot(idx) {
                Slot::Text(s) => s,
                Slot::Number(n) => n.to_string(),
                Slot::Boolean(b) => b.to_string(),
                Slot::Object(_) => "[object Object]".to_string(),
                _ => String::new(),
            });
        }
        let v = parts.join(",");
        ctx.push(v);
        1
    }
}

#[test]
fn serialized() {
    let t = Value::Record(vec![field("hello", Value::Text("world".to_string()))]);
    let mut ctx = Context::default();
    ctx.push_function(&Print);
    ctx.push(SerdeValue(&t));
    ctx.call(1, &Print).unwrap();
}

#[test]
fn a_function_of_variable_arity_sees_every_argument() {
    let mut ctx = Context::default();
    ctx.register_function("print", &Print);
    assert!(ctx.get_global_str("print"));
    ctx.push("hello".to_string());
    ctx.push(&1u32);
    ctx.push(&2u32);
    ctx.call(3, &Print).unwrap();
    let s = ctx.eval_result::<String>(0, "").unwrap();
    assert_eq!(s, "hello,1,2");
    ctx.pop();
    assert_eq!(ctx.stack_len(), 0);
}

/// A method that hands out the `data` of its receiver as a byte buffer,
/// whether the record holds it as an array of numbers or as a buffer.
struct GetDataOf;

impl Function for GetDataOf {
    fn args(&self) -> i32 {
        0
    }

    fn ptr(&self) -> u64 {
        5
    }

    fn call(&self, ctx: &mut Context) -> i32 {
        ctx.push_this();
        if !ctx.get_prop(-1, "data") {
            ctx.pop();
            return -1;
        }
        let data: Vec<u8> = match ctx.peek_slot(-1) {
            Slot::Buffer(bytes) => bytes,
            Slot::Array(items) => items
                .iter()
                .map(|item| match item {
                    Slot::Number(n) => *n as u8,
                    _ => 0,
                })
                .collect(),
            _ => return -1,
        };
        ctx.pop_n(2);
        ctx.push(&data[..]);
        1
    }
}

/// A method that hands out the `data` of its receiver as a string.
struct ReturnData;

impl Function for ReturnData {
    fn args(&self) -> i32 {
        0
    }

    fn ptr(&self) -> u64 {
        6
    }

    fn call(&self, ctx: &mut Context) -> i32 {
        let kind = Kind::Record(vec![
            field_kind("data", Kind::Text),
            field_kind("counter", Kind::U32),
        ]);
        let descriptor = Descriptor { arg_kinds: Vec::new(), this_kind: Some(kind), returns: true };
        match descriptor.enter(ctx) {
            Entry::Ready { this, .. } => {
                let this = this.unwrap();
                let data = Value::Text(text(&fields(&this)[0].value));
                descriptor.leave(ctx, Some(&data))
            }
            _ => -1,
        }
    }
}

/// Pushes `obj` with `method` registered on it as `getData`, and calls
/// `obj.getData()`.
fn call_get_data<F: Function>(ctx: &mut Context, obj: &Value, method: &F) {
    ctx.push_function(method);
    let idx = ctx.push(SerdeValue(obj));
    ctx.register_method(idx, "getData", method);
    ctx.set_this();
    ctx.call(0, method).unwrap();
}

fn bytes_as_array(bytes: &[u8]) -> Value {
    Value::Sequence(bytes.iter().map(|b| Value::U8(*b)).collect())
}

#[test]
fn ret_ref_array() {
    let obj = Value::Record(vec![field("data", bytes_as_array(&[0, 1, 2, 3]))]);
    let mut ctx = Context::default();
    call_get_data(&mut ctx, &obj, &GetDataOf);
    let res = ctx.peek::<Vec<u8>>(-1).unwrap();
    assert_eq!(res, &[0, 1, 2, 3]);
}

#[test]
fn test_ret_ref_array() {
    let obj = Value::Record(vec![field("data", bytes_as_array(&[0, 1, 2, 3]))]);
    let mut ctx = Context::default();
    call_get_data(&mut ctx, &obj, &GetDataOf);
    let res = ctx.peek::<Vec<u8>>(-1);
    assert_eq!(res.unwrap(), &[0, 1, 2, 3]);
    assert_eq!(ctx.stack_len(), 1);
}

fn push_with_buffer(ctx: &mut Context, bytes: &[u8]) {
    ctx.push_function(&GetDataOf);
    let idx = ctx.push_object();
    ctx.push(bytes);
    ctx.put_prop_string(idx, "data");
    ctx.register_method(idx as u32, "getData", &GetDataOf);
    ctx.set_this();
}

#[test]
fn ret_ref_buf() {
    let mut ctx = Context::default();
    push_with_buffer(&mut ctx, &[0, 1, 2, 3]);
    ctx.call(0, &GetDataOf).unwrap();
    let res = ctx.peek::<Vec<u8>>(-1).unwrap();
    assert_eq!(res, &[0, 1, 2, 3]);
}

#[test]
fn test_ret_ref_buf() {
    let mut ctx = Context::default();
    push_with_buffer(&mut ctx, &[0, 1, 2, 3]);
    ctx.call(0, &GetDataOf).unwrap();
    assert_eq!(ctx.tag_at(-1), Tag::Buffer);
    let res = ctx.peek::<Vec<u8>>(-1);
    assert_eq!(res.unwrap(), &[0, 1, 2, 3]);
}

#[test]
fn method() {
    let mut ctx = Context::default();
    let data = Value::Record(vec![
        field("data", Value::Text("hello".to_string())),
        field("counter", Value::U32(5)),
    ]);
    call_get_data(&mut ctx, &data, &ReturnData);
    let res = ctx.peek::<String>(-1).unwrap();
    assert_eq!(res, "hello");
}

#[test]
fn test_method() {
    let mut ctx = Context::default();
    let data = Value::Record(vec![
        field("data", Value::Text("hello".to_string())),
        field("counter", Value::U32(5)),
    ]);
    call_get_data(&mut ctx, &data, &ReturnData);
    let res = ctx.peek::<String>(-1);
    assert_eq!(res.unwrap(), "hello");
    assert_eq!(ctx.stack_len(), 1);
}

#[test]
fn a_value_tells_whether_it_can_be_written_and_how_much_room_it_takes() {
    let plain = Value::Record(vec![
        field("a", Value::U8(1)),
        field("b", Value::Record(vec![field("c", Value::Sequence(vec![Value::Bool(true)]))])),
    ]);
    assert!(plain.can_be_written());
    assert!(!plain.fits(3));
    assert!(plain.fits(4));
    assert!(Value::Unit.fits(1));
    assert!(!Value::Unit.fits(0));
    assert!(Value::Sequence(Vec::new()).fits(1));
    assert!(Value::Present(Box::new(Value::Newtype(Box::new(Value::U8(0))))).fits(1));
    let refused = Value::Record(vec![
        field("a", Value::U8(1)),
        field("b", Value::Sequence(vec![Value::U8(1), Value::Present(Box::new(Value::I64(1)))])),
    ]);
    assert!(!refused.can_be_written());
    assert!(!Value::U64(0).can_be_written());
    assert!(!Value::Bytes(Vec::new()).can_be_written());
    assert!(!Value::Variant("A".to_string()).can_be_written());
    assert!(!Value::Mapping(0).can_be_written());
    assert!(Value::Absent.can_be_written());
}

#[test]
fn a_field_is_opened_read_and_closed() {
    let mut ctx = Context::default();
    let obj = Value::Record(vec![field("num", Value::U32(42))]);
    ctx.push(SerdeValue(&obj));
    let mut d = DuktapeDeserializer::from_ctx(&mut ctx, 0);
    match d.open_element(0, "other") {
        Err(e) => assert_eq!(e.message(), "incorrect field other"),
        Ok(()) => panic!("a missing field was opened"),
    }
    assert_eq!(d.inner.stack_len(), 1);
    d.open_element(0, "num").unwrap();
    assert_eq!(d.inner.stack_len(), 2);
    assert_eq!(d.inner.get_uint(-1), 42);
    d.close_element();
    assert_eq!(d.inner.stack_len(), 1);
    assert!(matches!(d.next_element(0, &field_kind("num", Kind::U32)), Ok(Value::U32(42))));
    assert_eq!(
        d.next_element(0, &field_kind("gone", Kind::U32)).unwrap_err().message(),
        "incorrect field gone"
    );
}

#[test]
fn the_typed_steps_of_a_trampoline() {
    let mut ctx = Context::default();
    ctx.push("below".to_string());
    ctx.push(&7u32);
    ctx.push("x".to_string());
    assert_eq!(read_argument::<u32>(&mut ctx, 2, 0).unwrap(), 7);
    assert_eq!(read_argument::<String>(&mut ctx, 2, 1).unwrap(), "x");
    assert!(read_argument::<u32>(&mut ctx, 2, 1).is_err());
    assert_eq!(read_argument::<String>(&mut ctx, 3, 0).unwrap(), "below");
    assert_eq!(ctx.stack_len(), 3);
    assert!(read_receiver::<u32>(&mut ctx).is_err());
    assert_eq!(read_receiver::<Option<u32>>(&mut ctx).unwrap(), None);
    ctx.push(&9u32);
    ctx.set_this();
    assert_eq!(read_receiver::<u32>(&mut ctx).unwrap(), 9);
    assert_eq!(ctx.stack_len(), 3);
    assert_eq!(return_value(&mut ctx, 16u32), 1);
    assert_eq!(ctx.peek::<u32>(-1).unwrap(), 16);
}

#[test]
fn deserialize_num() {
    let mut ctx = Context::default();
    ctx.push(SerdeValue(&Value::Double(42.0f64.to_bits())));
    match peek_as(&mut ctx, -1, &Kind::Double).unwrap() {
        Value::Double(bits) => assert_eq!(f64::from_bits(bits), 42.0f64),
        _ => panic!("not carried by its bits"),
    }
}

#[test]
fn numbers_of_double_precision_are_carried_as_an_integer_or_by_their_bits() {
    let mut ctx = Context::default();
    for v in [0.5f64, -1.25, f64::MAX, f64::MIN_POSITIVE, f64::INFINITY, -0.0] {
        ctx.push(SerdeValue(&Value::Double(v.to_bits())));
        assert_eq!(ctx.tag_at(-1), Tag::Double);
        assert_eq!(ctx.get_double_bits(-1), v.to_bits());
        assert!(matches!(
            peek_as(&mut ctx, -1, &Kind::Double),
            Ok(Value::Double(bits)) if bits == v.to_bits()
        ));
        // A number that is carried by its bits is no integer.
        assert_eq!(serde_text(ctx.peek::<u32>(-1).unwrap_err()), "incorrect type");
        ctx.pop();
    }
    let nan = f64::NAN.to_bits();
    ctx.push_double_bits(nan);
    assert!(matches!(peek_as(&mut ctx, -1, &Kind::Double), Ok(Value::Double(bits)) if bits == nan));
    // A number whose value is an integer reads as an integer of any width
    // and as a number of double precision.
    ctx.push(SerdeValue(&Value::Whole(42)));
    assert_eq!(ctx.tag_at(-1), Tag::Number);
    assert_eq!(ctx.peek::<u32>(-1).unwrap(), 42);
    assert!(matches!(peek_as(&mut ctx, -1, &Kind::Double), Ok(Value::Whole(42))));
    ctx.push(&-7i32);
    assert!(matches!(peek_as(&mut ctx, -1, &Kind::Double), Ok(Value::Whole(-7))));
    ctx.push("x".to_string());
    assert_eq!(serde_text(peek_as(&mut ctx, -1, &Kind::Double).unwrap_err()), "incorrect type");
    {
        let mut d = DuktapeDeserializer::from_ctx(&mut ctx, -2);
        assert!(matches!(d.deserialize_double(), Ok(Value::Whole(-7))));
    }
    {
        let mut s = DuktapeSerializer::from_ctx(&mut ctx);
        s.serialize_double(1.5f64.to_bits()).unwrap();
        s.serialize_whole(1 << 40).unwrap();
    }
    assert_eq!(f64::from_bits(ctx.get_double_bits(-2)), 1.5);
    assert!(matches!(ctx.peek_slot(-1), Slot::Number(n) if n == 1 << 40));
}
