//! Engine values as they sit in a slot of the value stack.
//!
//! A [`Slot`] is an executable tree; its view, [`SlotView`], is the
//! mathematical value the contracts of this crate speak about.

use vstd::prelude::*;

verus! {

/// One property of an engine object: a byte-string key and the value bound to it.
#[derive(Debug)]
pub struct Property {
    pub key: Vec<u8>,
    pub value: Slot,
}

/// A value of the engine.
///
/// A number whose value is an integer is carried as that integer. Any other
/// number is carried by its bits alone.
#[derive(Debug)]
pub enum Slot {
    Undefined,
    Null,
    Boolean(bool),
    Number(i64),
    /// A number that is not carried as an integer, by the bits of its
    /// double-precision form. The library hands the bits on and never looks
    /// into them.
    Double(u64),
    Text(String),
    Buffer(Vec<u8>),
    Pointer(usize),
    /// A native callable: the identity of its entry point and the arity it
    /// was registered with.
    Function { entry: u64, nargs: i32 },
    /// A plain object: properties in insertion order.
    Object(Vec<Property>),
    Array(Vec<Slot>),
}

/// The mathematical value of a [`Slot`].
pub ghost enum SlotView {
    Undefined,
    Null,
    Boolean(bool),
    Number(int),
    Double(u64),
    Text(Seq<char>),
    Buffer(Seq<u8>),
    Pointer(int),
    Function { entry: int, nargs: int },
    Object(Seq<(Seq<u8>, SlotView)>),
    Array(Seq<SlotView>),
}

/// The dynamic type of an engine value.
#[derive(Clone, Copy, Debug, PartialEq, Eq, Structural)]
pub enum Tag {
    Undefined,
    Null,
    Boolean,
    Number,
    Double,
    Text,
    Buffer,
    Pointer,
    Function,
    Object,
    Array,
}

impl SlotView {
    /// The dynamic type of the value.
    pub open spec fn tag(self) -> Tag {
        match self {
            SlotView::Undefined => Tag::Undefined,
            SlotView::Null => Tag::Null,
            SlotView::Boolean(_) => Tag::Boolean,
            SlotView::Number(_) => Tag::Number,
            SlotView::Double(_) => Tag::Double,
            SlotView::Text(_) => Tag::Text,
            SlotView::Buffer(_) => Tag::Buffer,
            SlotView::Pointer(_) => Tag::Pointer,
            SlotView::Function { .. } => Tag::Function,
            SlotView::Object(_) => Tag::Object,
            SlotView::Array(_) => Tag::Array,
        }
    }

    /// Whether the engine counts the value as an object: plain objects,
    /// arrays and callables do.
    pub open spec fn is_object_like(self) -> bool {
        self is Object || self is Array || self is Function
    }

    /// Whether the value stands for "nothing there": `null` or `undefined`.
    pub open spec fn is_absent(self) -> bool {
        self is Null || self is Undefined
    }
}

/// The position of the first property with key `key`, or `props.len()`.
pub open spec fn find_key(props: Seq<(Seq<u8>, SlotView)>, key: Seq<u8>) -> int
    decreases props.len(),
{
    if props.len() == 0 {
        0
    } else if props[0].0 == key {
        0
    } else {
        1 + find_key(props.drop_first(), key)
    }
}

/// Whether some property has key `key`.
pub open spec fn has_key(props: Seq<(Seq<u8>, SlotView)>, key: Seq<u8>) -> bool {
    exists|i: int| 0 <= i < props.len() && (#[trigger] props[i]).0 == key
}

/// The properties after binding `key` to `value`: the first property with
/// that key is replaced in place, and a new key is appended.
pub open spec fn bind_key(
    props: Seq<(Seq<u8>, SlotView)>,
    key: Seq<u8>,
    value: SlotView,
) -> Seq<(Seq<u8>, SlotView)> {
    let at = find_key(props, key);
    if at < props.len() {
        props.update(at, (key, value))
    } else {
        props.push((key, value))
    }
}

/// The elements of an array after storing `value` at `index`: an index past
/// the end pads the gap with `undefined`.
pub open spec fn store_at(items: Seq<SlotView>, index: int, value: SlotView) -> Seq<SlotView> {
    if index < items.len() {
        items.update(index, value)
    } else {
        items + Seq::new((index - items.len()) as nat, |i: int| SlotView::Undefined).push(value)
    }
}

/// `find_key` stays within bounds, finds a property with the key where it
/// stops early, and passes over none with that key.
pub proof fn lemma_find_key(props: Seq<(Seq<u8>, SlotView)>, key: Seq<u8>)
    ensures
        0 <= find_key(props, key) <= props.len(),
        find_key(props, key) < props.len() ==> props[find_key(props, key)].0 == key,
        forall|i: int| 0 <= i < find_key(props, key) ==> (#[trigger] props[i]).0 != key,
        has_key(props, key) <==> find_key(props, key) < props.len(),
    decreases props.len(),
{
    if props.len() == 0 {
    } else if props[0].0 == key {
    } else {
        let rest = props.drop_first();
        lemma_find_key(rest, key);
        let at = find_key(rest, key);
        assert forall|i: int| 0 <= i < 1 + at implies (#[trigger] props[i]).0 != key by {
            if i > 0 {
                assert(rest[i - 1] == props[i]);
            }
        }
        if at < rest.len() {
            assert(rest[at] == props[at + 1]);
        }
        if has_key(props, key) {
            let i = choose|i: int| 0 <= i < props.len() && (#[trigger] props[i]).0 == key;
            assert(rest[i - 1] == props[i]);
            assert(has_key(rest, key));
        }
    }
}

impl Property {
    /// The key and the view of the value.
    pub open spec fn view(&self) -> (Seq<u8>, SlotView) {
        (self.key@, self.value.view())
    }
}

/// The views of a vector of properties, in order.
pub open spec fn view_props(props: &Vec<Property>) -> Seq<(Seq<u8>, SlotView)>
    decreases props,
{
    Seq::new(
        props.len() as nat,
        |i: int|
            if 0 <= i < props.len() {
                (props[i].key@, props[i].value.view())
            } else {
                (Seq::empty(), SlotView::Undefined)
            },
    )
}

/// The views of a vector of slots, in order.
pub open spec fn view_slots(items: &Vec<Slot>) -> Seq<SlotView>
    decreases items,
{
    Seq::new(
        items.len() as nat,
        |i: int|
            if 0 <= i < items.len() {
                items[i].view()
            } else {
                SlotView::Undefined
            },
    )
}

impl Slot {
    /// The mathematical value.
    pub open spec fn view(&self) -> SlotView
        decreases self,
    {
        match self {
            Slot::Undefined => SlotView::Undefined,
            Slot::Null => SlotView::Null,
            Slot::Boolean(b) => SlotView::Boolean(*b),
            Slot::Number(n) => SlotView::Number(*n as int),
            Slot::Double(bits) => SlotView::Double(*bits),
            Slot::Text(s) => SlotView::Text(s@),
            Slot::Buffer(b) => SlotView::Buffer(b@),
            Slot::Pointer(p) => SlotView::Pointer(*p as int),
            Slot::Function { entry, nargs } => SlotView::Function {
                entry: *entry as int,
                nargs: *nargs as int,
            },
            Slot::Object(props) => SlotView::Object(view_props(props)),
            Slot::Array(items) => SlotView::Array(view_slots(items)),
        }
    }

    /// The dynamic type of the value.
    pub fn tag(&self) -> (t: Tag)
        ensures
            t == self@.tag(),
    {
        match self {
            Slot::Undefined => Tag::Undefined,
            Slot::Null => Tag::Null,
            Slot::Boolean(_) => Tag::Boolean,
            Slot::Number(_) => Tag::Number,
            Slot::Double(_) => Tag::Double,
            Slot::Text(_) => Tag::Text,
            Slot::Buffer(_) => Tag::Buffer,
            Slot::Pointer(_) => Tag::Pointer,
            Slot::Function { .. } => Tag::Function,
            Slot::Object(_) => Tag::Object,
            Slot::Array(_) => Tag::Array,
        }
    }

    /// A deep copy: a slot with the same view.
    pub fn duplicate(&self) -> (r: Slot)
        ensures
            r@ == self@,
        decreases self,
    {
        match self {
            Slot::Undefined => Slot::Undefined,
            Slot::Null => Slot::Null,
            Slot::Boolean(b) => Slot::Boolean(*b),
            Slot::Number(n) => Slot::Number(*n),
            Slot::Double(bits) => Slot::Double(*bits),
            Slot::Text(t) => Slot::Text(t.clone()),
            Slot::Buffer(b) => Slot::Buffer(b.clone()),
            Slot::Pointer(p) => Slot::Pointer(*p),
            Slot::Function { entry, nargs } => Slot::Function { entry: *entry, nargs: *nargs },
            Slot::Object(props) => Slot::Object(duplicate_props(props)),
            Slot::Array(items) => Slot::Array(duplicate_slots(items)),
        }
    }
}

/// A deep copy of a vector of slots.
pub fn duplicate_slots(items: &Vec<Slot>) -> (out: Vec<Slot>)
    ensures
        view_slots(&out) == view_slots(items),
    decreases items,
{
    let mut out: Vec<Slot> = Vec::new();
    let mut i: usize = 0;
    while i < items.len()
        invariant
            i <= items.len(),
            out.len() == i,
            forall|j: int| 0 <= j < i ==> out[j]@ == items[j]@,
        decreases items.len() - i,
    {
        out.push(items[i].duplicate());
        i += 1;
    }
    assert(view_slots(&out) =~= view_slots(items));
    out
}

/// A deep copy of a vector of properties.
pub fn duplicate_props(props: &Vec<Property>) -> (out: Vec<Property>)
    ensures
        view_props(&out) == view_props(props),
    decreases props,
{
    let mut out: Vec<Property> = Vec::new();
    let mut i: usize = 0;
    while i < props.len()
        invariant
            i <= props.len(),
            out.len() == i,
            forall|j: int| 0 <= j < i ==> out[j]@ == props[j]@,
        decreases props.len() - i,
    {
        let p = &props[i];
        out.push(Property { key: p.key.clone(), value: p.value.duplicate() });
        i += 1;
    }
    assert(view_props(&out) =~= view_props(props));
    out
}

/// Whether two byte strings hold the same bytes.
pub fn same_bytes(a: &[u8], b: &[u8]) -> (r: bool)
    ensures
        r == (a@ == b@),
{
    if a.len() != b.len() {
        return false;
    }
    let mut i: usize = 0;
    while i < a.len()
        invariant
            i <= a.len(),
            a.len() == b.len(),
            forall|j: int| 0 <= j < i ==> a@[j] == b@[j],
        decreases a.len() - i,
    {
        if a[i] != b[i] {
            return false;
        }
        i += 1;
    }
    assert(a@ =~= b@);
    true
}

/// The position of the first property with key `key`, or `props.len()`.
pub fn position_of(props: &Vec<Property>, key: &[u8]) -> (at: usize)
    ensures
        at == find_key(view_props(props), key@),
        at <= props.len(),
{
    let ghost all = view_props(props);
    let mut i: usize = 0;
    while i < props.len()
        invariant
            i <= props.len(),
            all == view_props(props),
            forall|j: int| 0 <= j < i ==> (#[trigger] all[j]).0 != key@,
        decreases props.len() - i,
    {
        if same_bytes(props[i].key.as_slice(), key) {
            proof {
                lemma_find_key(all, key@);
                assert(all[i as int].0 == key@);
                if find_key(all, key@) > i {
                    assert(all[i as int].0 != key@);
                }
            }
            return i;
        }
        i += 1;
    }
    proof {
        lemma_find_key(all, key@);
        if find_key(all, key@) < all.len() {
            assert(all[find_key(all, key@)].0 == key@);
        }
    }
    i
}

} // verus!
