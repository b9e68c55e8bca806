use duktape::context::{frame_result, Context, STACK_LIMIT};
use duktape::eval_flags;
use duktape::function::Function;
use duktape::slot::{Slot, Tag};

struct Print;

impl Function for Print {
    fn args(&self) -> i32 {
        -1
    }

    fn ptr(&self) -> u64 {
        77
    }

    fn call(&self, _ctx: &mut Context) -> i32 {
        0
    }
}

#[test]
fn a_fresh_stack_is_empty() {
    let ctx = Context::default();
    assert_eq!(ctx.stack_len(), 0);
    assert_eq!(ctx.room(), STACK_LIMIT);
    assert!(!ctx.is_valid_index(0));
    assert!(!ctx.is_valid_index(-1));
    assert_eq!(Context::new().stack_len(), 0);
}

#[test]
fn indices_count_from_the_bottom_or_from_the_top() {
    let mut ctx = Context::default();
    ctx.push_int(10);
    ctx.push_int(20);
    ctx.push_int(30);
    assert_eq!(ctx.stack_len(), 3);
    assert_eq!(ctx.stack_top(), 2);
    assert_eq!(ctx.get_int(0), 10);
    assert_eq!(ctx.get_int(2), 30);
    assert_eq!(ctx.get_int(-1), 30);
    assert_eq!(ctx.get_int(-3), 10);
    assert!(ctx.is_valid_index(2));
    assert!(ctx.is_valid_index(-3));
    assert!(!ctx.is_valid_index(3));
    assert!(!ctx.is_valid_index(-4));
    assert!(!ctx.is_valid_index(i32::MIN));
    assert!(!ctx.is_valid_index(i32::MAX));
}

#[test]
fn each_push_writes_one_slot_of_its_type() {
    let mut ctx = Context::default();
    ctx.push_null();
    ctx.push_undefined();
    ctx.push_bool(true);
    ctx.push_int(-1);
    ctx.push_uint(u32::MAX);
    ctx.push_string("hi");
    ctx.push_buffer(&[1, 2]);
    ctx.push_pointer(0xdead);
    assert_eq!(ctx.push_object(), 8);
    assert_eq!(ctx.push_array(), 9);
    ctx.push_function(&Print);
    let tags = [
        Tag::Null,
        Tag::Undefined,
        Tag::Boolean,
        Tag::Number,
        Tag::Number,
        Tag::Text,
        Tag::Buffer,
        Tag::Pointer,
        Tag::Object,
        Tag::Array,
        Tag::Function,
    ];
    assert_eq!(ctx.stack_len(), tags.len() as i32);
    for (i, tag) in tags.iter().enumerate() {
        assert_eq!(ctx.tag_at(i as i32), *tag);
    }
    assert!(ctx.get_bool(2));
    assert_eq!(ctx.get_int(3), -1);
    assert_eq!(ctx.get_uint(4), u32::MAX);
    assert_eq!(ctx.get_string(5), "hi");
    assert_eq!(ctx.get_buffer(6), vec![1, 2]);
    assert_eq!(ctx.get_pointer(7), 0xdead);
    ctx.get_null(0);
    ctx.get_object(8);
    ctx.get_object(9);
    ctx.get_object(10);
    assert!(matches!(ctx.peek_slot(10), Slot::Function { entry: 77, nargs: -1 }));
}

#[test]
fn stack_shape_manipulation() {
    let mut ctx = Context::default();
    ctx.push_int(1);
    ctx.push_int(2);
    ctx.push_int(3);
    ctx.dup(0);
    assert_eq!(ctx.stack_len(), 4);
    assert_eq!(ctx.get_int(-1), 1);
    ctx.swap(0, -2);
    assert_eq!(ctx.get_int(0), 3);
    assert_eq!(ctx.get_int(2), 1);
    ctx.swap(1, 1);
    assert_eq!(ctx.get_int(1), 2);
    ctx.pop();
    assert_eq!(ctx.stack_len(), 3);
    ctx.pop_n(0);
    assert_eq!(ctx.stack_len(), 3);
    ctx.pop_n(2);
    assert_eq!(ctx.stack_len(), 1);
    assert_eq!(ctx.get_int(-1), 3);
    ctx.pop_n(1);
    assert_eq!(ctx.stack_len(), 0);
}

#[test]
fn a_property_lookup_pushes_only_on_success() {
    let mut ctx = Context::default();
    let obj = ctx.push_object();
    ctx.push_int(5);
    ctx.put_prop_string(obj, "five");
    assert_eq!(ctx.stack_len(), 1);
    assert!(!ctx.get_prop(obj, "six"));
    assert_eq!(ctx.stack_len(), 1);
    assert!(ctx.get_prop(obj, "five"));
    assert_eq!(ctx.stack_len(), 2);
    assert_eq!(ctx.get_int(-1), 5);
    // A value that is no object has no properties.
    assert!(!ctx.get_prop(-1, "five"));
    assert_eq!(ctx.stack_len(), 2);
    ctx.pop();
    // Binding a key again replaces the value in place.
    ctx.push_int(6);
    ctx.put_prop_string(-2, "five");
    assert!(ctx.get_prop_bytes(0, b"five"));
    assert_eq!(ctx.get_int(-1), 6);
    ctx.pop();
    assert!(matches!(ctx.peek_slot(0), Slot::Object(props) if props.len() == 1));
}

#[test]
fn storing_past_the_end_of_an_array_pads_with_undefined() {
    let mut ctx = Context::default();
    let arr = ctx.push_array();
    ctx.push_int(1);
    ctx.put_prop_index(arr, 0);
    ctx.push_int(2);
    ctx.put_prop_index(arr, 3);
    ctx.push_int(9);
    ctx.put_prop_index(arr, 0);
    match ctx.peek_slot(arr) {
        Slot::Array(items) => {
            assert_eq!(items.len(), 4);
            assert!(matches!(items[0], Slot::Number(9)));
            assert!(matches!(items[1], Slot::Undefined));
            assert!(matches!(items[2], Slot::Undefined));
            assert!(matches!(items[3], Slot::Number(2)));
        }
        _ => panic!("not an array"),
    }
    assert_eq!(ctx.stack_len(), 1);
}

#[test]
fn globals_are_bound_by_name() {
    let mut ctx = Context::default();
    assert!(!ctx.get_global_str("print"));
    assert_eq!(ctx.stack_len(), 0);
    ctx.register_function("print", &Print);
    assert_eq!(ctx.stack_len(), 0);
    assert!(ctx.get_global_str("print"));
    assert!(matches!(ctx.peek_slot(-1), Slot::Function { entry: 77, nargs: -1 }));
    ctx.pop();
    ctx.push_string("v");
    ctx.put_global_string("name");
    assert_eq!(ctx.stack_len(), 0);
    assert!(ctx.get_global_str("name"));
    assert_eq!(ctx.get_string(-1), "v");
    assert!(!ctx.get_global_str("other"));
}

#[test]
fn the_receiver_is_undefined_until_one_is_set() {
    let mut ctx = Context::default();
    ctx.push_this();
    assert_eq!(ctx.tag_at(-1), Tag::Undefined);
    ctx.push_int(4);
    ctx.set_this();
    assert_eq!(ctx.stack_len(), 1);
    ctx.push_this();
    assert_eq!(ctx.get_int(-1), 4);
}

#[test]
fn a_copy_of_a_slot_is_deep() {
    let mut ctx = Context::default();
    let obj = ctx.push_object();
    ctx.push_string("inner");
    ctx.put_prop_string(obj, "k");
    ctx.dup(obj);
    ctx.push_int(1);
    ctx.put_prop_string(-2, "k");
    assert!(ctx.get_prop(0, "k"));
    assert_eq!(ctx.get_string(-1), "inner");
    ctx.pop();
    assert!(ctx.get_prop(1, "k"));
    assert_eq!(ctx.get_int(-1), 1);
    let copy = ctx.peek_slot(0).duplicate();
    assert_eq!(copy.tag(), Tag::Object);
}

#[test]
fn an_evaluation_ends_in_a_value_or_in_the_rendered_failure() {
    assert_eq!(eval_flags(), (1 << 3) | (1 << 9) | (1 << 11) | (1 << 7));
    assert_eq!(eval_flags(), 2696);
    let mut ctx = Context::default();
    ctx.push_string("hello,1,2");
    let s = ctx.eval_result::<String>(0, "").unwrap();
    assert_eq!(s, "hello,1,2");
    ctx.pop();
    ctx.push_string("ReferenceError: identifier 'x' undefined");
    match ctx.eval_result::<String>(1, "ReferenceError: identifier 'x' undefined") {
        Err(e) => assert_eq!(e.message(), "ReferenceError: identifier 'x' undefined"),
        Ok(_) => panic!("a failed evaluation gave a value"),
    }
    match ctx.eval_result::<u32>(-1, "boom") {
        Err(duktape::Error::Message(m)) => assert_eq!(m, "boom"),
        Ok(_) => panic!("a failed evaluation gave a value"),
    }
    match ctx.eval_result::<u32>(0, "") {
        Err(e) => assert_eq!(e.message(), "incorrect type"),
        Ok(_) => panic!("a string was read as a number"),
    }
    ctx.push_undefined();
    ctx.eval_result::<()>(0, "").unwrap();
    assert_eq!(ctx.stack_len(), 2);
}

#[test]
fn what_a_call_leaves_behind() {
    assert!(matches!(frame_result(0, Some(Slot::Number(5))), Ok(Slot::Undefined)));
    assert!(matches!(frame_result(0, None), Ok(Slot::Undefined)));
    assert!(matches!(frame_result(1, None), Ok(Slot::Undefined)));
    assert!(matches!(frame_result(1, Some(Slot::Number(5))), Ok(Slot::Number(5))));
    assert!(matches!(frame_result(7, Some(Slot::Boolean(true))), Ok(Slot::Boolean(true))));
    match frame_result(-1, Some(Slot::Number(5))) {
        Err(e) => assert_eq!(e.message(), "function failed"),
        Ok(_) => panic!("a negative code gave a value"),
    }
    assert!(frame_result(i32::MIN, None).is_err());
}
