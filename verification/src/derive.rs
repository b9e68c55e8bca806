//! What the record derive decides: how each field is stored, what is
//! generated for a type, and under which names its methods are registered.

use crate::context::Context;
use crate::function::{deepest_arg, lemma_deepest_arg, view_kinds};
use crate::names::register_name;
use crate::serialize::{
    decoding, deepest_item, depth, encoding, kind_depth, lemma_deepest_item,
};
use crate::slot::{bind_key, find_key, has_key, SlotView, Tag};
use crate::value::{PeekError, PeekFault, PeekValue, PushValue, SerdeValue};
use crate::value_model::{view_values, Kind, KindView, Value, ValueView};
use vstd::prelude::*;
use vstd::utf8::encode_utf8;

verus! {

/// The byte that starts the key of a hidden property.
pub const HIDDEN_PREFIX: u8 = 0xff;

/// Generate the consumer capability.
pub const GENERATE_PEEK: u8 = 1;

/// Generate the producer capability.
pub const GENERATE_PUSH: u8 = 2;

/// Generate a producer that takes the structured bridge.
pub const GENERATE_AS_SERIALIZE: u8 = 4;

/// What is generated where nothing is asked for: both capabilities.
pub const DEFAULT: u8 = 3;

/// The key under which a field named `name` is stored: the name's bytes,
/// behind the hidden prefix where the field is hidden.
pub open spec fn prop_key(name: Seq<char>, hidden: bool) -> Seq<u8> {
    if hidden {
        seq![HIDDEN_PREFIX] + encode_utf8(name)
    } else {
        encode_utf8(name)
    }
}

/// A named field as it is declared: its name and the names of its
/// attributes, in order.
#[derive(Debug)]
pub struct FieldInput {
    pub name: String,
    pub attrs: Vec<String>,
}

/// What the derive keeps of a field.
#[derive(Debug)]
pub struct FieldMeta {
    pub name: String,
    /// The field takes the structured bridge.
    pub is_data: bool,
    /// The field is stored under a hidden key.
    pub is_hidden: bool,
    /// The positions, among the field's attributes, of those handed on to
    /// the structured bridge.
    pub serde_attrs: Vec<usize>,
}

/// The names of a vector of strings, in order.
pub open spec fn view_names(names: &Vec<String>) -> Seq<Seq<char>> {
    Seq::new(names.len() as nat, |i: int| names[i]@)
}

/// Whether `word` is among the first `n` names.
pub open spec fn mentions(names: Seq<Seq<char>>, word: Seq<char>, n: int) -> bool {
    exists|i: int| 0 <= i < n && i < names.len() && #[trigger] names[i] == word
}

/// The positions, in order, of `word` among the first `n` names.
pub open spec fn positions(names: Seq<Seq<char>>, word: Seq<char>, n: int) -> Seq<usize>
    decreases n,
{
    if n <= 0 || n > names.len() {
        Seq::empty()
    } else if names[n - 1] == word {
        positions(names, word, n - 1).push((n - 1) as usize)
    } else {
        positions(names, word, n - 1)
    }
}

impl FieldMeta {
    /// Whether this is what the derive keeps of the field `input`: a `data`
    /// attribute sends the field over the structured bridge, a `hidden`
    /// attribute hides it, and the `serde` attributes are handed on by
    /// their positions.
    pub open spec fn describes(&self, input: &FieldInput) -> bool {
        &&& self.name@ == input.name@
        &&& self.is_data == mentions(view_names(&input.attrs), "data"@, input.attrs.len() as int)
        &&& self.is_hidden == mentions(
            view_names(&input.attrs),
            "hidden"@,
            input.attrs.len() as int,
        )
        &&& self.serde_attrs@ == positions(
            view_names(&input.attrs),
            "serde"@,
            input.attrs.len() as int,
        )
    }

    /// What the derive keeps of the field `input`: a `data` attribute sends
    /// it over the structured bridge, a `hidden` attribute hides it, and the
    /// `serde` attributes are handed on. Other attributes are passed over.
    pub fn from_input(input: &FieldInput) -> (meta: FieldMeta)
        ensures
            meta.describes(input),
    {
        let ghost names = view_names(&input.attrs);
        let mut serde_attrs: Vec<usize> = Vec::new();
        let mut is_data = false;
        let mut is_hidden = false;
        let serde = "serde".to_owned();
        let data = "data".to_owned();
        let hidden = "hidden".to_owned();
        let mut i: usize = 0;
        while i < input.attrs.len()
            invariant
                i <= input.attrs.len(),
                names == view_names(&input.attrs),
                serde@ == "serde"@,
                data@ == "data"@,
                hidden@ == "hidden"@,
                is_data == mentions(names, "data"@, i as int),
                is_hidden == mentions(names, "hidden"@, i as int),
                serde_attrs@ == positions(names, "serde"@, i as int),
            decreases input.attrs.len() - i,
        {
            let attr = &input.attrs[i];
            assert(attr@ == names[i as int]);
            if *attr == serde {
                serde_attrs.push(i);
            }
            if *attr == data {
                is_data = true;
            }
            if *attr == hidden {
                is_hidden = true;
            }
            proof {
                if mentions(names, "data"@, i as int + 1) && !is_data {
                    let j = choose|j: int|
                        0 <= j < i + 1 && j < names.len() && #[trigger] names[j] == "data"@;
                    assert(j < i);
                }
                if mentions(names, "hidden"@, i as int + 1) && !is_hidden {
                    let j = choose|j: int|
                        0 <= j < i + 1 && j < names.len() && #[trigger] names[j] == "hidden"@;
                    assert(j < i);
                }
            }
            i += 1;
        }
        FieldMeta { name: input.name.clone(), is_data, is_hidden, serde_attrs }
    }

    /// The key of the property under which the field is stored.
    pub fn prop_name(&self) -> (key: Vec<u8>)
        ensures
            key@ == prop_key(self.name@, self.is_hidden),
    {
        let name = self.name.as_str().as_bytes();
        if self.is_hidden {
            let mut buf: Vec<u8> = Vec::new();
            buf.push(HIDDEN_PREFIX);
            let mut i: usize = 0;
            while i < name.len()
                invariant
                    i <= name.len(),
                    buf@ == seq![HIDDEN_PREFIX] + name@.subrange(0, i as int),
                decreases name.len() - i,
            {
                buf.push(name[i]);
                assert(name@.subrange(0, i as int + 1) =~= name@.subrange(0, i as int).push(
                    name@[i as int],
                ));
                i += 1;
            }
            assert(name@.subrange(0, name.len() as int) =~= name@);
            buf
        } else {
            vstd::slice::slice_to_vec(name)
        }
    }
}

/// One option of the derive: a single word, or the list of methods to expose.
#[derive(Debug)]
pub enum DeriveOption {
    Single(String),
    Methods(Vec<String>),
}

/// Why the options of a derive cannot be taken.
#[derive(Debug)]
pub enum DeriveError {
    /// A word that is none of `Peek`, `Push` and `Serialize`.
    UnknownOption(String),
}

impl DeriveError {
    /// The word that was refused.
    pub open spec fn word(&self) -> Seq<char> {
        match self {
            DeriveError::UnknownOption(word) => word@,
        }
    }

    /// The failure as a line of text.
    pub fn message(&self) -> (m: String)
        ensures
            m@ == "unknown attribute value: "@ + self.word() + ", expected Peek, Push, Serialize"@,
    {
        match self {
            DeriveError::UnknownOption(word) => {
                let mut m = "unknown attribute value: ".to_owned();
                m.append(word.as_str());
                m.append(", expected Peek, Push, Serialize");
                m
            },
        }
    }
}

/// The flag that a word of the options stands for, if it is one of the
/// three known words.
pub open spec fn word_flag(word: Seq<char>) -> Option<u8> {
    if word == "Peek"@ {
        Some(GENERATE_PEEK)
    } else if word == "Push"@ {
        Some(GENERATE_PUSH)
    } else if word == "Serialize"@ {
        Some(GENERATE_AS_SERIALIZE)
    } else {
        None
    }
}

/// What the first `n` options ask for: the flags of their words joined and
/// the methods of the last list among them, or the first unknown word.
pub open spec fn chosen(options: Seq<DeriveOption>, n: int) -> Result<
    (u8, Seq<Seq<char>>),
    Seq<char>,
>
    decreases n,
{
    if n <= 0 || n > options.len() {
        Ok((0u8, Seq::empty()))
    } else {
        match chosen(options, n - 1) {
            Err(word) => Err(word),
            Ok((flags, methods)) => match options[n - 1] {
                DeriveOption::Single(word) => match word_flag(word@) {
                    Some(flag) => Ok((flags | flag, methods)),
                    None => Err(word@),
                },
                DeriveOption::Methods(list) => Ok((flags, view_names(&list))),
            },
        }
    }
}

/// What is generated for a type, and which of its methods are exposed.
#[derive(Debug)]
pub struct Plan {
    pub flags: u8,
    pub methods: Vec<String>,
}

impl Plan {
    /// What the options ask for: without options both capabilities and no
    /// method, else what their words and lists come to, or the first
    /// unknown word.
    pub open spec fn expected(options: &Vec<DeriveOption>) -> Result<
        (u8, Seq<Seq<char>>),
        Seq<char>,
    > {
        if options.len() == 0 {
            Ok((DEFAULT, Seq::empty()))
        } else {
            chosen(options@, options.len() as int)
        }
    }

    /// The plan that the options ask for. Without options both capabilities
    /// are generated and no method is exposed.
    pub fn from_options(options: &Vec<DeriveOption>) -> (res: Result<Plan, DeriveError>)
        ensures
            match Plan::expected(options) {
                Ok((flags, methods)) => res matches Ok(plan) && plan.flags == flags && view_names(
                    &plan.methods,
                ) == methods,
                Err(word) => res matches Err(DeriveError::UnknownOption(w)) && w@ == word,
            },
    {
        if options.len() == 0 {
            let methods: Vec<String> = Vec::new();
            assert(view_names(&methods) =~= Seq::<Seq<char>>::empty());
            return Ok(Plan { flags: DEFAULT, methods });
        }
        let peek = "Peek".to_owned();
        let push = "Push".to_owned();
        let serialize = "Serialize".to_owned();
        let mut flags: u8 = 0;
        let mut methods: Vec<String> = Vec::new();
        assert(view_names(&methods) =~= Seq::<Seq<char>>::empty());
        let mut i: usize = 0;
        while i < options.len()
            invariant
                i <= options.len(),
                peek@ == "Peek"@,
                push@ == "Push"@,
                serialize@ == "Serialize"@,
                chosen(options@, i as int) == Ok::<(u8, Seq<Seq<char>>), Seq<char>>(
                    (flags, view_names(&methods)),
                ),
            decreases options.len() - i,
        {
            match &options[i] {
                DeriveOption::Single(word) => {
                    if *word == peek {
                        flags = flags | GENERATE_PEEK;
                    } else if *word == push {
                        flags = flags | GENERATE_PUSH;
                    } else if *word == serialize {
                        flags = flags | GENERATE_AS_SERIALIZE;
                    } else {
                        proof {
                            lemma_refusal_stays(options@, i as int + 1, options.len() as int);
                        }
                        return Err(DeriveError::UnknownOption(word.clone()));
                    }
                },
                DeriveOption::Methods(list) => {
                    methods = copy_names(list);
                },
            }
            i += 1;
        }
        Ok(Plan { flags, methods })
    }

    /// Whether the consumer capability is generated.
    pub fn generates_peek(&self) -> (r: bool)
        ensures
            r == (self.flags & GENERATE_PEEK != 0),
    {
        self.flags & GENERATE_PEEK != 0
    }

    /// Whether the producer capability is generated.
    pub fn generates_push(&self) -> (r: bool)
        ensures
            r == (self.flags & GENERATE_PUSH != 0),
    {
        self.flags & GENERATE_PUSH != 0
    }

    /// Whether a producer over the structured bridge is generated.
    pub fn generates_as_serialize(&self) -> (r: bool)
        ensures
            r == (self.flags & GENERATE_AS_SERIALIZE != 0),
    {
        self.flags & GENERATE_AS_SERIALIZE != 0
    }

    /// The names of the functions that register the exposed methods, in the
    /// order of the methods.
    pub fn register_names(&self) -> (names: Vec<String>)
        ensures
            names.len() == self.methods.len(),
            forall|i: int|
                0 <= i < names.len() ==> (#[trigger] names[i])@ == "register_"@
                    + crate::names::snake_case_of(self.methods[i]@),
    {
        let mut names: Vec<String> = Vec::new();
        let mut i: usize = 0;
        while i < self.methods.len()
            invariant
                i <= self.methods.len(),
                names.len() == i,
                forall|j: int|
                    0 <= j < i ==> (#[trigger] names[j])@ == "register_"@
                        + crate::names::snake_case_of(self.methods[j]@),
            decreases self.methods.len() - i,
        {
            names.push(register_name(self.methods[i].as_str()));
            i += 1;
        }
        names
    }
}

/// Once an unknown word is met, later options change nothing.
pub proof fn lemma_refusal_stays(options: Seq<DeriveOption>, i: int, n: int)
    requires
        0 <= i <= n <= options.len(),
        chosen(options, i) is Err,
    ensures
        chosen(options, n) == chosen(options, i),
    decreases n,
{
    if i < n {
        lemma_refusal_stays(options, i, n - 1);
    }
}

/// A copy of a list of names.
pub fn copy_names(names: &Vec<String>) -> (out: Vec<String>)
    ensures
        view_names(&out) == view_names(names),
{
    let mut out: Vec<String> = Vec::new();
    let mut i: usize = 0;
    while i < names.len()
        invariant
            i <= names.len(),
            out.len() == i,
            forall|j: int| 0 <= j < i ==> out[j]@ == names[j]@,
        decreases names.len() - i,
    {
        out.push(names[i].clone());
        i += 1;
    }
    assert(view_names(&out) =~= view_names(names));
    out
}

/// Writes one field of the record at absolute index `idx`: the value, then
/// its binding under the field's key, plain or hidden.
pub fn push_field<T: PushValue>(ctx: &mut Context, idx: u32, meta: &FieldMeta, value: T)
    requires
        old(ctx).wf(),
        idx < old(ctx)@.len(),
        old(ctx)@[idx as int] is Object,
        value.accepted(),
        old(ctx).has_room(1),
        old(ctx).has_room(value.room() as int),
    ensures
        final(ctx).wf(),
        final(ctx)@ == old(ctx)@.update(
            idx as int,
            SlotView::Object(
                bind_key(
                    old(ctx)@[idx as int]->Object_0,
                    prop_key(meta.name@, meta.is_hidden),
                    value.slot(),
                ),
            ),
        ),
        final(ctx).ambient() == old(ctx).ambient(),
{
    let _ = ctx.stack_len();
    let key = meta.prop_name();
    let _ = value.push_to(ctx);
    ctx.put_prop_bytes(idx as i32, key.as_slice());
    assert(ctx@ =~= old(ctx)@.update(
        idx as int,
        SlotView::Object(
            bind_key(
                old(ctx)@[idx as int]->Object_0,
                prop_key(meta.name@, meta.is_hidden),
                value.slot(),
            ),
        ),
    ));
}

/// Writes one field that takes the structured bridge; see [`push_field`].
pub fn push_data_field(ctx: &mut Context, idx: u32, meta: &FieldMeta, value: &Value)
    requires
        old(ctx).wf(),
        idx < old(ctx)@.len(),
        old(ctx)@[idx as int] is Object,
        encoding(value@) is Some,
        old(ctx).has_room(depth(value@) as int),
    ensures
        final(ctx).wf(),
        final(ctx)@ == old(ctx)@.update(
            idx as int,
            SlotView::Object(
                bind_key(
                    old(ctx)@[idx as int]->Object_0,
                    prop_key(meta.name@, meta.is_hidden),
                    encoding(value@).unwrap(),
                ),
            ),
        ),
        final(ctx).ambient() == old(ctx).ambient(),
{
    proof {
        crate::function::lemma_depth_positive(value@);
    }
    push_field(ctx, idx, meta, SerdeValue(value));
}

/// Reads one field of the record at `idx`: looks the field's key up, reads
/// the value found at the top of the stack, and removes it again. A record
/// without the property fails with the field's name.
pub fn peek_field<T: PeekValue>(ctx: &mut Context, idx: i32, meta: &FieldMeta) -> (res: Result<
    T,
    PeekError,
>)
    requires
        old(ctx).wf(),
        old(ctx).valid(idx as int),
        old(ctx).has_room(1 + T::room() as int),
    ensures
        final(ctx).wf(),
        final(ctx)@ == old(ctx)@,
        final(ctx).ambient() == old(ctx).ambient(),
        match field_slot(old(ctx).slot(idx as int), prop_key(meta.name@, meta.is_hidden)) {
            Some(slot) => T::reads(slot, res),
            None => res matches Err(e) && e@ == PeekFault::Prop(meta.name@),
        },
{
    let ghost stack = ctx@;
    let key = meta.prop_name();
    if !ctx.get_prop_bytes(idx, key.as_slice()) {
        return Err(PeekError::Prop(meta.name.clone()));
    }
    let res = T::peek_at(ctx, -1);
    ctx.pop();
    assert(ctx@ =~= stack);
    res
}

/// Reads one field that takes the structured bridge, as a value of `kind`;
/// see [`peek_field`].
pub fn peek_data_field(ctx: &mut Context, idx: i32, meta: &FieldMeta, kind: &Kind) -> (res: Result<
    Value,
    PeekError,
>)
    requires
        old(ctx).wf(),
        old(ctx).valid(idx as int),
        old(ctx).has_room(1 + kind_depth(kind@) as int),
    ensures
        final(ctx).wf(),
        final(ctx)@ == old(ctx)@,
        final(ctx).ambient() == old(ctx).ambient(),
        match field_slot(old(ctx).slot(idx as int), prop_key(meta.name@, meta.is_hidden)) {
            Some(slot) => match decoding(slot, kind@) {
                Ok(v) => res matches Ok(r) && r@ == v,
                Err(f) => res matches Err(e) && e@ == PeekFault::Serde(f.text()),
            },
            None => res matches Err(e) && e@ == PeekFault::Prop(meta.name@),
        },
{
    let ghost stack = ctx@;
    let key = meta.prop_name();
    if !ctx.get_prop_bytes(idx, key.as_slice()) {
        return Err(PeekError::Prop(meta.name.clone()));
    }
    let res = SerdeValue::peek_as(ctx, -1, kind);
    ctx.pop();
    assert(ctx@ =~= stack);
    match res {
        Ok(value) => Ok(value.0),
        Err(e) => Err(e),
    }
}

/// The value bound to `key` on `slot`, where `slot` is an object with such
/// a property.
pub open spec fn field_slot(slot: SlotView, key: Seq<u8>) -> Option<SlotView> {
    match slot {
        SlotView::Object(props) => if has_key(props, key) {
            Some(props[find_key(props, key)].1)
        } else {
            None
        },
        _ => None,
    }
}

/// A record type as it is declared: its name, its named fields and the
/// options of the derive.
#[derive(Debug)]
pub struct DeriveInput {
    pub ident: String,
    pub fields: Vec<FieldInput>,
    pub options: Vec<DeriveOption>,
}

/// What the derive comes to for a record type.
#[derive(Debug)]
pub struct Derived {
    pub ident: String,
    /// What is kept of each field, in the order of the fields.
    pub fields: Vec<FieldMeta>,
    pub plan: Plan,
    /// The names of the functions that register the exposed methods, in the
    /// order of the methods.
    pub register_fns: Vec<String>,
}

/// What the derive on a record type comes to: what is kept of each field,
/// what is generated, and how the exposed methods are registered. The
/// fields are taken first, then the options.
pub fn value(input: &DeriveInput) -> (res: Result<Derived, DeriveError>)
    ensures
        match Plan::expected(&input.options) {
            Err(word) => res matches Err(DeriveError::UnknownOption(w)) && w@ == word,
            Ok((flags, methods)) => {
                &&& res matches Ok(derived)
                &&& derived.ident@ == input.ident@
                &&& derived.fields.len() == input.fields.len()
                &&& forall|i: int|
                    0 <= i < input.fields.len() ==> (#[trigger] derived.fields[i]).describes(
                        &input.fields[i],
                    )
                &&& derived.plan.flags == flags
                &&& view_names(&derived.plan.methods) == methods
                &&& derived.register_fns.len() == methods.len()
                &&& forall|i: int|
                    0 <= i < methods.len() ==> (#[trigger] derived.register_fns[i])@ == "register_"@
                        + crate::names::snake_case_of(methods[i])
            },
        },
{
    let mut fields: Vec<FieldMeta> = Vec::new();
    let mut i: usize = 0;
    while i < input.fields.len()
        invariant
            i <= input.fields.len(),
            fields.len() == i,
            forall|j: int| 0 <= j < i ==> (#[trigger] fields[j]).describes(&input.fields[j]),
        decreases input.fields.len() - i,
    {
        fields.push(FieldMeta::from_input(&input.fields[i]));
        i += 1;
    }
    let plan = match Plan::from_options(&input.options) {
        Ok(plan) => plan,
        Err(e) => {
            return Err(e);
        },
    };
    let register_fns = plan.register_names();
    Ok(Derived { ident: input.ident.clone(), fields, plan, register_fns })
}

/// The properties of a record after its first `n` fields were stored in
/// order, each under its key, plain or hidden.
pub open spec fn stored(fields: Seq<FieldMeta>, values: Seq<ValueView>, n: int) -> Seq<
    (Seq<u8>, SlotView),
>
    decreases n,
{
    if n <= 0 || n > fields.len() || n > values.len() {
        Seq::empty()
    } else {
        bind_key(
            stored(fields, values, n - 1),
            prop_key(fields[n - 1].name@, fields[n - 1].is_hidden),
            encoding(values[n - 1]).unwrap(),
        )
    }
}

/// Whether each of the first `n` values can be written.
pub open spec fn all_encodable(values: Seq<ValueView>, n: int) -> bool {
    forall|i: int| 0 <= i < n && i < values.len() ==> encoding(#[trigger] values[i]) is Some
}

/// Writes a record: an object with each field stored under its key, plain
/// or hidden, in the order of the fields. Returns the absolute index of the
/// object.
pub fn push_record(ctx: &mut Context, fields: &Vec<FieldMeta>, values: &Vec<Value>) -> (idx: u32)
    requires
        old(ctx).wf(),
        fields.len() == values.len(),
        all_encodable(view_values(values), values.len() as int),
        old(ctx).has_room(1 + deepest_item(view_values(values), values.len() as int) as int),
    ensures
        final(ctx).wf(),
        final(ctx)@ == old(ctx)@.push(
            SlotView::Object(stored(fields@, view_values(values), fields.len() as int)),
        ),
        final(ctx).ambient() == old(ctx).ambient(),
        idx == old(ctx)@.len(),
{
    let ghost all = view_values(values);
    let ghost base = ctx@;
    let idx = ctx.push_object() as u32;
    let mut i: usize = 0;
    while i < fields.len()
        invariant
            i <= fields.len(),
            fields.len() == values.len(),
            all == view_values(values),
            all_encodable(all, values.len() as int),
            base == old(ctx)@,
            idx == base.len(),
            base.len() + 1 + deepest_item(all, values.len() as int) <= crate::context::STACK_LIMIT,
            ctx.wf(),
            ctx.ambient() == old(ctx).ambient(),
            ctx@ == base.push(SlotView::Object(stored(fields@, all, i as int))),
        decreases fields.len() - i,
    {
        proof {
            lemma_deepest_item(all, values.len() as int, i as int);
            assert(encoding(all[i as int]) is Some);
        }
        push_data_field(ctx, idx, &fields[i], &values[i]);
        assert(ctx@ =~= base.push(SlotView::Object(stored(fields@, all, i as int + 1))));
        i += 1;
    }
    idx
}

/// The first `n` fields of a record as read from `slot`, each under its
/// kind: what is no object fails as a whole, and of an object the first
/// field that is missing or cannot be read decides.
pub open spec fn loaded(slot: SlotView, fields: Seq<FieldMeta>, kinds: Seq<KindView>, n: int) -> Result<
    Seq<ValueView>,
    PeekFault,
>
    decreases n,
{
    if !(slot is Object) {
        Err(PeekFault::Type)
    } else if n <= 0 || n > fields.len() || n > kinds.len() {
        Ok(Seq::empty())
    } else {
        match loaded(slot, fields, kinds, n - 1) {
            Err(f) => Err(f),
            Ok(read) => match field_slot(
                slot,
                prop_key(fields[n - 1].name@, fields[n - 1].is_hidden),
            ) {
                None => Err(PeekFault::Prop(fields[n - 1].name@)),
                Some(found) => match decoding(found, kinds[n - 1]) {
                    Ok(v) => Ok(read.push(v)),
                    Err(f) => Err(PeekFault::Serde(f.text())),
                },
            },
        }
    }
}

/// Once a field cannot be read, later fields change nothing.
pub proof fn lemma_loaded_stays(
    slot: SlotView,
    fields: Seq<FieldMeta>,
    kinds: Seq<KindView>,
    i: int,
    n: int,
)
    requires
        0 <= i <= n <= fields.len(),
        n <= kinds.len(),
        loaded(slot, fields, kinds, i) is Err,
    ensures
        loaded(slot, fields, kinds, n) == loaded(slot, fields, kinds, i),
    decreases n,
{
    if i < n {
        lemma_loaded_stays(slot, fields, kinds, i, n - 1);
    }
}

/// Reads the record at `idx`: requires an object, then looks up and reads
/// each field in order, under its key and its kind. The first field that is
/// missing or cannot be read fails the whole reading. The stack is left as
/// it was.
pub fn peek_record(ctx: &mut Context, idx: i32, fields: &Vec<FieldMeta>, kinds: &Vec<Kind>) -> (res:
    Result<Vec<Value>, PeekError>)
    requires
        old(ctx).wf(),
        old(ctx).valid(idx as int),
        fields.len() == kinds.len(),
        old(ctx).has_room(1 + deepest_arg(view_kinds(kinds), kinds.len() as int) as int),
    ensures
        final(ctx).wf(),
        final(ctx)@ == old(ctx)@,
        final(ctx).ambient() == old(ctx).ambient(),
        match loaded(old(ctx).slot(idx as int), fields@, view_kinds(kinds), fields.len() as int) {
            Ok(values) => res matches Ok(read) && view_values(&read) == values,
            Err(f) => res matches Err(e) && e@ == f,
        },
{
    let ghost all = view_kinds(kinds);
    let ghost slot = ctx.slot(idx as int);
    match ctx.tag_at(idx) {
        Tag::Object => {},
        _ => {
            return Err(PeekError::Type);
        },
    }
    let mut read: Vec<Value> = Vec::new();
    assert(view_values(&read) =~= Seq::<ValueView>::empty());
    let mut i: usize = 0;
    while i < fields.len()
        invariant
            i <= fields.len(),
            fields.len() == kinds.len(),
            all == view_kinds(kinds),
            ctx.wf(),
            ctx@ == old(ctx)@,
            ctx.ambient() == old(ctx).ambient(),
            ctx.valid(idx as int),
            slot == old(ctx).slot(idx as int),
            slot is Object,
            ctx.has_room(1 + deepest_arg(all, kinds.len() as int) as int),
            loaded(slot, fields@, all, i as int) == Ok::<Seq<ValueView>, PeekFault>(
                view_values(&read),
            ),
        decreases fields.len() - i,
    {
        proof {
            lemma_deepest_arg(all, kinds.len() as int, i as int);
        }
        let kind = &kinds[i];
        assert(kind@ == all[i as int]);
        match peek_data_field(ctx, idx, &fields[i], kind) {
            Ok(value) => {
                let ghost so_far = view_values(&read);
                read.push(value);
                assert(view_values(&read) =~= so_far.push(value@));
            },
            Err(e) => {
                proof {
                    assert(loaded(slot, fields@, all, i as int + 1) is Err);
                    lemma_loaded_stays(slot, fields@, all, i as int + 1, fields.len() as int);
                }
                return Err(e);
            },
        }
        i += 1;
    }
    Ok(read)
}

} // verus!
