use duktape::context::Context;
use duktape::derive::{
    peek_data_field, peek_field, peek_record, push_data_field, push_field, push_record, value,
    DeriveError, DeriveInput,
    DeriveOption, FieldInput, FieldMeta, Plan, DEFAULT, GENERATE_AS_SERIALIZE, GENERATE_PEEK,
    GENERATE_PUSH, HIDDEN_PREFIX,
};
use duktape::function::{
    duktape, Args, MacroError, ParamInput, ReturnInput, SignatureInput, Trampoline, KV, REJECTED,
    VARIABLE_ARITY,
};
use duktape::names::{marker_name, register_name};
use duktape::slot::Slot;
use duktape::value::PeekError;
use duktape::value_model::{Kind, Value};

fn input(name: &str, attrs: &[&str]) -> FieldInput {
    FieldInput { name: name.to_string(), attrs: attrs.iter().map(|a| a.to_string()).collect() }
}

fn single(word: &str) -> DeriveOption {
    DeriveOption::Single(word.to_string())
}

fn methods(names: &[&str]) -> DeriveOption {
    DeriveOption::Methods(names.iter().map(|n| n.to_string()).collect())
}

fn kv(name: &str, value: Option<&str>) -> KV {
    KV { name: name.to_string(), value: value.map(|v| v.to_string()) }
}

fn signature(name: &str, params: Vec<ParamInput>, output: ReturnInput) -> SignatureInput {
    SignatureInput { name: name.to_string(), params, output }
}

fn no_args() -> Args {
    Args { this: None, vararg: false }
}

#[test]
fn test_hidden() {
    // pub struct Obj { #[hidden] data: Vec<u8> }
    let meta = FieldMeta::from_input(&input("data", &["hidden"]));
    assert_eq!(meta.name, "data");
    assert!(meta.is_hidden);
    assert!(!meta.is_data);
    assert!(meta.serde_attrs.is_empty());
    assert_eq!(meta.prop_name(), vec![0xff, b'd', b'a', b't', b'a']);
    let plan = Plan::from_options(&Vec::new()).unwrap();
    assert!(plan.generates_peek());
    assert!(plan.generates_push());
}

#[test]
fn test_newtype() {
    // #[duktape(Peek, Push, Methods("toString", "toInt"))] pub struct Obj { x: u32 }
    let options = vec![single("Peek"), single("Push"), methods(&["toString", "toInt"])];
    let plan = Plan::from_options(&options).unwrap();
    assert_eq!(plan.flags, GENERATE_PEEK | GENERATE_PUSH);
    assert_eq!(plan.methods, vec!["toString", "toInt"]);
    assert_eq!(plan.register_names(), vec!["register_to_string", "register_to_int"]);
    let meta = FieldMeta::from_input(&input("x", &[]));
    assert_eq!(meta.prop_name(), b"x");
    // #[duktape(this = "Obj")] fn to_int(&self) -> u32
    let args = Args::parse(&vec![kv("this", Some("Obj"))]).unwrap();
    let sig = signature(
        "to_int",
        vec![ParamInput::Receiver { by_reference: true }],
        ReturnInput::Path,
    );
    let t = Trampoline::plan(&args, &sig).unwrap();
    assert_eq!(t.struct_name, "ToInt");
    assert!(t.is_method);
    assert_eq!(t.this.as_deref(), Some("Obj"));
    assert_eq!(t.register_fn.as_deref(), Some("register_to_int"));
    assert_eq!(t.arity, 0);
    assert_eq!(t.return_count, 1);
    // #[duktape(this = "Obj")] fn to_string(&self) -> String
    let sig = signature(
        "to_string",
        vec![ParamInput::Receiver { by_reference: true }],
        ReturnInput::Path,
    );
    let t = Trampoline::plan(&args, &sig).unwrap();
    assert_eq!(t.struct_name, "ToString");
    assert_eq!(t.register_fn.as_deref(), Some("register_to_string"));
}

#[test]
fn generics() {
    // fn bla(_ctx: &mut Context, data: Vec<u8>) -> Vec<u8>
    let sig = signature("bla", vec![ParamInput::Reference, ParamInput::Path], ReturnInput::Path);
    let t = Trampoline::plan(&no_args(), &sig).unwrap();
    assert_eq!(t.struct_name, "Bla");
    assert_eq!(t.fn_name, "bla");
    assert!(!t.is_method);
    assert_eq!(t.args, vec![1]);
    assert_eq!(t.arity, 1);
    assert_eq!(t.min_args, 1);
    assert_eq!(t.return_count, 1);
    assert!(t.this.is_none());
    assert!(t.register_fn.is_none());
}

#[test]
fn arrays() {
    // fn bla(_ctx: &mut Context, _data: Vec<u8>) -> [u8; 20]
    let sig = signature("bla", vec![ParamInput::Reference, ParamInput::Path], ReturnInput::Array);
    let t = Trampoline::plan(&no_args(), &sig).unwrap();
    assert_eq!(t.return_count, 1);
    assert_eq!(t.arity, 1);
    assert_eq!(t.offset(0), -1);
}

#[test]
fn field_attributes_decide_how_a_field_is_stored() {
    let meta = FieldMeta::from_input(&input("data", &["data", "serde"]));
    assert!(meta.is_data);
    assert!(!meta.is_hidden);
    assert_eq!(meta.serde_attrs, vec![1]);
    assert_eq!(meta.prop_name(), b"data");
    let meta =
        FieldMeta::from_input(&input("k", &["serde", "doc", "hidden", "serde", "data", "serde"]));
    assert!(meta.is_data);
    assert!(meta.is_hidden);
    assert_eq!(meta.serde_attrs, vec![0, 3, 5]);
    assert_eq!(meta.prop_name(), vec![HIDDEN_PREFIX, b'k']);
    let meta = FieldMeta::from_input(&input("caf\u{e9}", &["Hidden", "DATA"]));
    assert!(!meta.is_data);
    assert!(!meta.is_hidden);
    assert_eq!(meta.prop_name(), "caf\u{e9}".as_bytes());
    let meta = FieldMeta { name: String::new(), is_data: false, is_hidden: true, serde_attrs: vec![] };
    assert_eq!(meta.prop_name(), vec![0xff]);
}

#[test]
fn options_decide_what_is_generated() {
    assert_eq!(DEFAULT, 3);
    let plan = Plan::from_options(&Vec::new()).unwrap();
    assert_eq!(plan.flags, DEFAULT);
    assert!(plan.methods.is_empty());
    assert!(!plan.generates_as_serialize());
    let plan = Plan::from_options(&vec![single("Serialize")]).unwrap();
    assert_eq!(plan.flags, GENERATE_AS_SERIALIZE);
    assert!(plan.generates_as_serialize());
    assert!(!plan.generates_peek());
    assert!(!plan.generates_push());
    let plan = Plan::from_options(&vec![single("Peek"), single("Peek")]).unwrap();
    assert_eq!(plan.flags, GENERATE_PEEK);
    let plan =
        Plan::from_options(&vec![methods(&["a"]), single("Push"), single("Serialize"), methods(&["b", "c"])])
            .unwrap();
    assert_eq!(plan.flags, 6);
    assert_eq!(plan.methods, vec!["b", "c"]);
    // Only a list of methods: nothing is generated.
    let plan = Plan::from_options(&vec![methods(&["toString"])]).unwrap();
    assert_eq!(plan.flags, 0);
}

#[test]
fn an_unknown_option_is_refused_with_its_word() {
    let res = Plan::from_options(&vec![single("Peek"), single("Pop"), single("Nope")]);
    match res {
        Err(DeriveError::UnknownOption(word)) => assert_eq!(word, "Pop"),
        Ok(_) => panic!("an unknown word was taken"),
    }
    let e = DeriveError::UnknownOption("Pop".to_string());
    assert_eq!(e.message(), "unknown attribute value: Pop, expected Peek, Push, Serialize");
    assert!(Plan::from_options(&vec![single("peek")]).is_err());
}

#[test]
fn names_of_generated_items() {
    assert_eq!(register_name("toString"), "register_to_string");
    assert_eq!(register_name("getData"), "register_get_data");
    assert_eq!(register_name("to_int"), "register_to_int");
    assert_eq!(marker_name("do_it"), "DoIt");
    assert_eq!(marker_name("print"), "Print");
    assert_eq!(marker_name("return_data"), "ReturnData");
}

#[test]
fn attribute_entries() {
    let args = Args::parse(&Vec::new()).unwrap();
    assert!(args.this.is_none());
    assert!(!args.vararg);
    let args = Args::parse(&vec![kv("vararg", None)]).unwrap();
    assert!(args.vararg);
    let args =
        Args::parse(&vec![kv("this", Some("A")), kv("vararg", Some("x")), kv("this", Some("B"))])
            .unwrap();
    assert_eq!(args.this.as_deref(), Some("B"));
    assert!(args.vararg);
    assert!(Args::check(&Vec::new()).is_ok());
    assert!(Args::check(&vec![kv("this", Some("A")), kv("vararg", None)]).is_ok());
    match Args::check(&vec![kv("vararg", None), kv("that", Some("A")), kv("this", None)]) {
        Err(MacroError::UnknownAttribute(name)) => assert_eq!(name, "that"),
        _ => panic!("an unknown entry was taken"),
    }
    match Args::check(&vec![kv("foo", None)]) {
        Err(e) => assert_eq!(e.message(), "unknown attribute foo"),
        Ok(()) => panic!("an unknown entry was taken"),
    }
    assert!(matches!(Args::check(&vec![kv("this", None)]), Err(MacroError::MissingValue)));
    assert_eq!(
        MacroError::UnknownAttribute("that".to_string()).message(),
        "unknown attribute that"
    );
}

#[test]
fn a_free_function_of_two_arguments() {
    // fn bla(_ctx: &mut Context, a: u32, b: u32) -> u32
    let sig = signature(
        "bla",
        vec![ParamInput::Reference, ParamInput::Path, ParamInput::Path],
        ReturnInput::Path,
    );
    let t = Trampoline::plan(&no_args(), &sig).unwrap();
    assert_eq!(t.args, vec![1, 2]);
    assert_eq!(t.arity, 2);
    assert_eq!(t.min_args, 2);
    assert_eq!(t.offset(0), -2);
    assert_eq!(t.offset(1), -1);
    assert_eq!(REJECTED, -1);
    assert!(!t.validates(0));
    assert!(!t.validates(1));
    assert!(t.validates(2));
    assert!(t.validates(3));
}

#[test]
fn variable_arity_waives_the_engine_check_only() {
    // #[duktape(vararg)] fn print(ctx: &mut Context, first: String)
    let args = Args { this: None, vararg: true };
    let sig =
        signature("print", vec![ParamInput::Reference, ParamInput::Path], ReturnInput::Default);
    let t = Trampoline::plan(&args, &sig).unwrap();
    assert_eq!(t.arity, VARIABLE_ARITY);
    assert_eq!(t.arity, -1);
    assert_eq!(t.min_args, 1);
    assert_eq!(t.return_count, 0);
    assert_eq!(t.struct_name, "Print");
}

#[test]
fn what_a_signature_may_not_hold() {
    let plan = |args: &Args, params: Vec<ParamInput>, output: ReturnInput| {
        Trampoline::plan(args, &signature("f", params, output))
    };
    assert!(matches!(
        plan(&no_args(), vec![ParamInput::Receiver { by_reference: false }], ReturnInput::Default),
        Err(MacroError::SelfNotSupported)
    ));
    assert!(matches!(
        plan(&no_args(), vec![ParamInput::Path, ParamInput::Reference], ReturnInput::Default),
        Err(MacroError::UnsupportedReference)
    ));
    assert!(matches!(
        plan(&no_args(), vec![ParamInput::Other], ReturnInput::Default),
        Err(MacroError::Unsupported)
    ));
    assert!(matches!(
        plan(&no_args(), vec![ParamInput::Path], ReturnInput::Other),
        Err(MacroError::UnsupportedReturnType)
    ));
    // The return type is looked at first, then the parameters in order.
    assert!(matches!(
        plan(&no_args(), vec![ParamInput::Other], ReturnInput::Other),
        Err(MacroError::UnsupportedReturnType)
    ));
    assert!(matches!(
        plan(
            &no_args(),
            vec![ParamInput::Reference, ParamInput::Other, ParamInput::Reference],
            ReturnInput::Reference
        ),
        Err(MacroError::Unsupported)
    ));
    assert!(matches!(
        plan(&no_args(), vec![ParamInput::Receiver { by_reference: true }], ReturnInput::Default),
        Err(MacroError::MissingThis)
    ));
    assert_eq!(MacroError::SelfNotSupported.message(), "self not supported");
    assert_eq!(MacroError::UnsupportedReference.message(), "unsupported reference");
    assert_eq!(MacroError::Unsupported.message(), "unsupported");
    assert_eq!(MacroError::UnsupportedReturnType.message(), "unsupported return type");
}

#[test]
fn a_method_counts_its_arguments_without_the_receiver() {
    // #[duktape(this = "Obj")] fn add(&self, n: u32) -> u32
    let args = Args::parse(&vec![kv("this", Some("Obj"))]).unwrap();
    let sig = signature(
        "add",
        vec![ParamInput::Receiver { by_reference: true }, ParamInput::Path],
        ReturnInput::Path,
    );
    let t = Trampoline::plan(&args, &sig).unwrap();
    assert!(t.is_method);
    assert_eq!(t.args, vec![1]);
    assert_eq!(t.arity, 1);
    assert_eq!(t.min_args, 1);
    assert_eq!(t.register_fn.as_deref(), Some("register_add"));
}

#[test]
fn fields_are_written_under_their_keys_and_read_back() {
    let mut ctx = Context::default();
    let idx = ctx.push_object() as u32;
    let name = FieldMeta::from_input(&input("name", &[]));
    let secret = FieldMeta::from_input(&input("secret", &["hidden"]));
    let blob = FieldMeta::from_input(&input("blob", &["data"]));
    push_field(&mut ctx, idx, &name, "n".to_string());
    push_field(&mut ctx, idx, &secret, 7u32);
    push_data_field(&mut ctx, idx, &blob, &Value::Sequence(vec![Value::U8(1)]));
    assert_eq!(ctx.stack_len(), 1);
    assert_eq!(peek_field::<String>(&mut ctx, 0, &name).unwrap(), "n");
    assert_eq!(peek_field::<u32>(&mut ctx, 0, &secret).unwrap(), 7);
    assert!(matches!(
        peek_data_field(&mut ctx, 0, &name, &Kind::Text),
        Ok(Value::Text(s)) if s == "n"
    ));
    assert_eq!(ctx.stack_len(), 1);
    // A hidden field is not among the properties keyed by a plain string.
    assert!(!ctx.get_prop(0, "secret"));
    assert!(ctx.get_prop_bytes(0, &[0xff, b's', b'e', b'c', b'r', b'e', b't']));
    ctx.pop();
    match ctx.peek_slot(0) {
        Slot::Object(props) => {
            assert_eq!(props.len(), 3);
            let plain: Vec<&[u8]> = props
                .iter()
                .filter(|p| std::str::from_utf8(&p.key).is_ok())
                .map(|p| p.key.as_slice())
                .collect();
            assert_eq!(plain, vec![&b"name"[..], &b"blob"[..]]);
            assert_eq!(props[1].key[0], 0xff);
        }
        _ => panic!("not an object"),
    }
}

#[test]
fn a_missing_field_fails_with_its_name() {
    let mut ctx = Context::default();
    ctx.push_object();
    let counter = FieldMeta::from_input(&input("counter", &[]));
    match peek_field::<u32>(&mut ctx, 0, &counter) {
        Err(PeekError::Prop(name)) => assert_eq!(name, "counter"),
        _ => panic!("a missing field was read"),
    }
    assert!(matches!(
        peek_data_field(&mut ctx, 0, &counter, &Kind::U32),
        Err(PeekError::Prop(name)) if name == "counter"
    ));
    // A field stored under its plain key is not found under its hidden key.
    push_field(&mut ctx, 0, &counter, 1u32);
    let hidden = FieldMeta::from_input(&input("counter", &["hidden"]));
    assert!(matches!(peek_field::<u32>(&mut ctx, 0, &hidden), Err(PeekError::Prop(_))));
    // A value of another type fails in the bridge.
    assert!(matches!(peek_field::<String>(&mut ctx, 0, &counter), Err(PeekError::Serde(_))));
    assert_eq!(ctx.stack_len(), 1);
    // What is no object has no fields.
    ctx.push_int(1);
    assert!(matches!(peek_field::<u32>(&mut ctx, -1, &counter), Err(PeekError::Prop(_))));
}

#[test]
fn the_derive_as_a_whole() {
    let derived = value(&DeriveInput {
        ident: "Obj".to_string(),
        fields: vec![input("data", &["data", "serde"]), input("key", &["hidden"])],
        options: vec![single("Peek"), single("Push"), methods(&["toString", "toInt"])],
    })
    .unwrap();
    assert_eq!(derived.ident, "Obj");
    assert_eq!(derived.fields.len(), 2);
    assert!(derived.fields[0].is_data);
    assert_eq!(derived.fields[0].serde_attrs, vec![1]);
    assert_eq!(derived.fields[1].prop_name(), vec![0xff, b'k', b'e', b'y']);
    assert_eq!(derived.plan.flags, 3);
    assert_eq!(derived.register_fns, vec!["register_to_string", "register_to_int"]);
    let derived = value(&DeriveInput {
        ident: "Pdo".to_string(),
        fields: vec![input("data", &[]), input("counter", &[])],
        options: Vec::new(),
    })
    .unwrap();
    assert_eq!(derived.plan.flags, DEFAULT);
    assert!(derived.register_fns.is_empty());
    let refused = value(&DeriveInput {
        ident: "Obj".to_string(),
        fields: Vec::new(),
        options: vec![single("Clone")],
    });
    assert!(matches!(refused, Err(DeriveError::UnknownOption(word)) if word == "Clone"));
}

#[test]
fn the_attribute_as_a_whole() {
    // #[duktape(this = "Obj")] fn get_data(&self) -> &[u8]
    let sig = signature(
        "get_data",
        vec![ParamInput::Receiver { by_reference: true }],
        ReturnInput::Reference,
    );
    let t = duktape(&vec![kv("this", Some("Obj"))], &sig).unwrap();
    assert_eq!(t.struct_name, "GetData");
    assert_eq!(t.register_fn.as_deref(), Some("register_get_data"));
    assert_eq!(t.this.as_deref(), Some("Obj"));
    assert_eq!(t.return_count, 1);
    assert_eq!(t.arity, 0);
    // The attribute is taken before the signature.
    let bad = signature("f", vec![ParamInput::Other], ReturnInput::Other);
    assert!(matches!(
        duktape(&vec![kv("nope", None)], &bad),
        Err(MacroError::UnknownAttribute(name)) if name == "nope"
    ));
    assert!(matches!(duktape(&Vec::new(), &bad), Err(MacroError::UnsupportedReturnType)));
    // fn do_it(_ctx: &mut Context, obj: Pdo) -> u32
    let sig = signature("do_it", vec![ParamInput::Reference, ParamInput::Path], ReturnInput::Path);
    let t = duktape(&Vec::new(), &sig).unwrap();
    assert_eq!(t.struct_name, "DoIt");
    assert_eq!(t.arity, 1);
    let t = duktape(&vec![kv("vararg", None)], &sig).unwrap();
    assert_eq!(t.arity, -1);
    assert_eq!(t.min_args, 1);
}

fn meta(name: &str, hidden: bool) -> FieldMeta {
    FieldMeta { name: name.to_string(), is_data: true, is_hidden: hidden, serde_attrs: Vec::new() }
}

#[test]
fn a_record_is_written_and_read_as_a_whole() {
    let mut ctx = Context::default();
    ctx.push_int(0);
    let fields = vec![meta("data", false), meta("counter", false), meta("data", true)];
    let values =
        vec![Value::Text("hello".to_string()), Value::U32(5), Value::Text("secret".to_string())];
    let idx = push_record(&mut ctx, &fields, &values);
    assert_eq!(idx, 1);
    assert_eq!(ctx.stack_len(), 2);
    let kinds = vec![Kind::Text, Kind::U32, Kind::Text];
    let read = peek_record(&mut ctx, -1, &fields, &kinds).unwrap();
    assert_eq!(read.len(), 3);
    assert!(matches!(&read[0], Value::Text(s) if s == "hello"));
    assert!(matches!(read[1], Value::U32(5)));
    assert!(matches!(&read[2], Value::Text(s) if s == "secret"));
    assert_eq!(ctx.stack_len(), 2);
    // The hidden field is stored under a key of its own.
    assert!(ctx.get_prop(1, "data"));
    assert_eq!(ctx.get_string(-1), "hello");
    ctx.pop();
    assert!(matches!(ctx.peek_slot(1), Slot::Object(props) if props.len() == 3));
}

#[test]
fn a_record_is_read_from_an_object_only_and_fails_at_the_first_bad_field() {
    let mut ctx = Context::default();
    ctx.push_int(0);
    let fields = vec![meta("a", false), meta("b", false), meta("c", false)];
    let kinds = vec![Kind::U32, Kind::U32, Kind::U32];
    assert!(matches!(peek_record(&mut ctx, 0, &fields, &kinds), Err(PeekError::Type)));
    assert!(matches!(peek_record(&mut ctx, 0, &Vec::new(), &Vec::new()), Err(PeekError::Type)));
    let stored = vec![meta("a", false), meta("c", false)];
    push_record(&mut ctx, &stored, &vec![Value::U32(1), Value::Text("x".to_string())]);
    match peek_record(&mut ctx, 1, &fields, &kinds) {
        Err(PeekError::Prop(name)) => assert_eq!(name, "b"),
        _ => panic!("a record without a field was read"),
    }
    match peek_record(&mut ctx, 1, &stored, &vec![Kind::U32, Kind::U32]) {
        Err(PeekError::Serde(e)) => assert_eq!(e.message(), "incorrect type"),
        _ => panic!("a string was read as a number"),
    }
    assert!(peek_record(&mut ctx, 1, &Vec::new(), &Vec::new()).unwrap().is_empty());
    assert_eq!(ctx.stack_len(), 2);
    let empty = push_record(&mut ctx, &Vec::new(), &Vec::new());
    assert!(matches!(ctx.peek_slot(empty as i32), Slot::Object(props) if props.is_empty()));
}
