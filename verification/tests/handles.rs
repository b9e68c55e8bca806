use duktape::context::Context;
use duktape::derive::{push_field, FieldInput, FieldMeta};
use duktape::function::Function;
use duktape::handle::{peek_rc, Handle, Ledger};
use duktape::slot::Slot;
use duktape::value::{PeekError, PushValue};

const VEC_U32: &str = "alloc::vec::Vec<u32>";
const VEC_U8: &str = "alloc::vec::Vec<u8>";

struct Method(u64);

impl Function for Method {
    fn args(&self) -> i32 {
        0
    }

    fn ptr(&self) -> u64 {
        self.0
    }

    fn call(&self, _ctx: &mut Context) -> i32 {
        0
    }
}

#[test]
fn test_rc() {
    let mut ledger = Ledger::new();
    let vec = ledger.create(0x1000, VEC_U32);
    let mut ctx = Context::default();
    let idx = ctx.push(vec);
    let same_vec = Handle::peek_at(&mut ctx, &mut ledger, idx.try_into().unwrap(), VEC_U32).unwrap();
    assert_eq!(ledger.strong_count(&same_vec), 2);
    let same_vec_2 = Handle::pop(&mut ctx, VEC_U32).unwrap();
    assert_eq!(ledger.strong_count(&same_vec), 2);
    ledger.release(same_vec_2);
    assert_eq!(ledger.strong_count(&same_vec), 1);
}

#[test]
fn test_methods() {
    // #[duktape(Peek, Push, Methods("toString", "toInt"))] pub struct Obj { t: Rc<Vec<u8>> }
    let mut ledger = Ledger::new();
    let mut ctx = Context::default();
    let t = FieldMeta::from_input(&FieldInput { name: "t".to_string(), attrs: Vec::new() });
    let handle = ledger.create(0x2000, VEC_U8);
    let idx = ctx.push_object() as u32;
    push_field(&mut ctx, idx, &t, handle);
    ctx.register_method(idx, "toString", &Method(1));
    ctx.register_method(idx, "toInt", &Method(2));
    assert_eq!(ctx.stack_len(), 1);
    assert!(ctx.get_prop(idx as i32, "t"));
    let read = Handle::peek_at(&mut ctx, &mut ledger, -1, VEC_U8).unwrap();
    ctx.pop();
    assert_eq!(read.ptr, 0x2000);
    assert_eq!(read.type_tag, VEC_U8);
    assert_eq!(ledger.strong_count(&read), 2);
    assert!(ctx.get_prop(idx as i32, "toInt"));
    assert!(matches!(ctx.peek_slot(-1), Slot::Function { entry: 2, nargs: 0 }));
}

#[test]
fn the_count_follows_the_owners_through_a_whole_cycle() {
    let mut ledger = Ledger::new();
    let mut ctx = Context::default();
    let first = ledger.create(0x10, VEC_U8);
    let other = ledger.create(0x20, VEC_U8);
    assert_eq!(ledger.strong_count(&first), 1);
    let idx = first.push_to(&mut ctx) as i32;
    let probe = Handle { ptr: 0x10, type_tag: VEC_U8.to_string() };
    assert_eq!(ledger.strong_count(&probe), 1);
    let a = Handle::peek_at(&mut ctx, &mut ledger, idx, VEC_U8).unwrap();
    assert_eq!(ledger.strong_count(&probe), 2);
    let b = Handle::peek_at(&mut ctx, &mut ledger, idx, VEC_U8).unwrap();
    assert_eq!(ledger.strong_count(&probe), 3);
    ledger.release(a);
    assert_eq!(ledger.strong_count(&probe), 2);
    let c = Handle::pop(&mut ctx, VEC_U8).unwrap();
    assert_eq!(ctx.stack_len(), 0);
    assert_eq!(ledger.strong_count(&probe), 2);
    ledger.release(b);
    assert_eq!(ledger.strong_count(&probe), 1);
    ledger.release(c);
    assert_eq!(ledger.strong_count(&probe), 0);
    assert_eq!(ledger.strong_count(&other), 1);
}

#[test]
fn the_type_tag_is_checked_on_every_read() {
    let mut ledger = Ledger::new();
    let mut ctx = Context::default();
    let handle = ledger.create(0x30, VEC_U8);
    ctx.push(handle);
    assert!(matches!(
        Handle::peek_at(&mut ctx, &mut ledger, 0, VEC_U32),
        Err(PeekError::Type)
    ));
    assert!(matches!(Handle::pop(&mut ctx, VEC_U32), Err(PeekError::Type)));
    assert_eq!(ctx.stack_len(), 1);
    let probe = Handle { ptr: 0x30, type_tag: VEC_U8.to_string() };
    assert_eq!(ledger.strong_count(&probe), 1);
    let read = peek_rc(&mut ctx, -1, VEC_U8, false).unwrap();
    assert_eq!(read.ptr, 0x30);
    assert!(!read.retain);
    let read = peek_rc(&mut ctx, -1, VEC_U8, true).unwrap();
    assert!(read.retain);
    assert_eq!(ctx.stack_len(), 1);
}

#[test]
fn a_wrapper_must_carry_both_properties() {
    let mut ctx = Context::default();
    ctx.push_int(1);
    assert!(matches!(peek_rc(&mut ctx, 0, VEC_U8, true), Err(PeekError::Type)));
    let obj = ctx.push_object();
    match peek_rc(&mut ctx, obj, VEC_U8, true) {
        Err(PeekError::Prop(name)) => assert_eq!(name, "__type"),
        _ => panic!("an empty object was read as a wrapper"),
    }
    ctx.push_string(VEC_U8);
    ctx.put_prop_string(obj, "__type");
    match peek_rc(&mut ctx, obj, VEC_U8, true) {
        Err(PeekError::Prop(name)) => assert_eq!(name, "__rc"),
        _ => panic!("a wrapper without a pointer was read"),
    }
    ctx.push_int(5);
    ctx.put_prop_string(obj, "__rc");
    assert!(matches!(peek_rc(&mut ctx, obj, VEC_U8, true), Err(PeekError::Type)));
    ctx.push_pointer(0x40);
    ctx.put_prop_string(obj, "__rc");
    assert_eq!(peek_rc(&mut ctx, -1, VEC_U8, true).unwrap().ptr, 0x40);
    ctx.push_int(0);
    ctx.put_prop_string(obj, "__type");
    assert!(matches!(peek_rc(&mut ctx, obj, VEC_U8, true), Err(PeekError::Type)));
    assert_eq!(ctx.stack_len(), 2);
}

#[test]
fn a_wrapper_is_an_object_with_the_pointer_and_the_type_tag() {
    let mut ledger = Ledger::new();
    let mut ctx = Context::default();
    ctx.push_int(0);
    let handle = ledger.create(0x50, VEC_U8);
    assert_eq!(ctx.push(handle), 1);
    assert_eq!(ctx.stack_len(), 2);
    match ctx.peek_slot(1) {
        Slot::Object(props) => {
            assert_eq!(props.len(), 2);
            assert_eq!(props[0].key, b"__rc");
            assert!(matches!(props[0].value, Slot::Pointer(0x50)));
            assert_eq!(props[1].key, b"__type");
            assert!(matches!(&props[1].value, Slot::Text(t) if t == VEC_U8));
        }
        _ => panic!("not an object"),
    }
}
