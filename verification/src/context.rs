//! The stack machine adapter: a value stack with typed push, get and put
//! primitives and direct stack manipulation.
//!
//! Every primitive is total on the inputs its `requires` admits and is
//! specified by its effect on the stack, the sequence of slot values.

use crate::slot::{
    bind_key, duplicate_props, find_key, has_key, lemma_find_key, position_of, store_at,
    view_props, view_slots, Property, Slot, SlotView, Tag,
};
use vstd::prelude::*;
use vstd::slice::slice_to_vec;
use vstd::utf8::encode_utf8;

verus! {

/// The largest number of slots a stack can hold: indices are 32-bit.
pub const STACK_LIMIT: usize = 0x7fff_ffff;

/// The absolute position that `idx` denotes in a stack of `len` slots: a
/// non-negative index counts from the bottom, a negative one from the top.
pub open spec fn resolve(len: int, idx: int) -> int {
    if idx >= 0 {
        idx
    } else {
        len + idx
    }
}

/// Whether `idx` denotes a populated slot of a stack of `len` slots.
pub open spec fn valid_index(len: int, idx: int) -> bool {
    0 <= resolve(len, idx) < len
}

/// The number a stored number yields when read as a signed 32-bit integer:
/// clamped to the type's range.
pub open spec fn clamp_int(n: int) -> int {
    if n < i32::MIN {
        i32::MIN as int
    } else if n > i32::MAX {
        i32::MAX as int
    } else {
        n
    }
}

/// The number a stored number yields when read as an unsigned 32-bit
/// integer: clamped to the type's range.
pub open spec fn clamp_uint(n: int) -> int {
    if n < 0 {
        0
    } else if n > u32::MAX {
        u32::MAX as int
    } else {
        n
    }
}

/// What a stack machine holds beside its stack.
pub ghost struct Ambient {
    /// The global bindings, in insertion order.
    pub globals: Seq<(Seq<u8>, SlotView)>,
    /// The receiver of the call in progress.
    pub this: SlotView,
}

/// The exclusive owner of one value stack, its table of globals and the
/// receiver of the call in progress.
#[derive(Debug)]
pub struct Context {
    slots: Vec<Slot>,
    globals: Vec<Property>,
    this: Slot,
}

impl Context {
    /// Well-formedness: the stack is within its limit. Every constructor
    /// establishes it and every operation preserves it.
    pub closed spec fn wf(&self) -> bool {
        self.slots.len() <= STACK_LIMIT
    }

    /// The stack, bottom first.
    pub closed spec fn view(&self) -> Seq<SlotView> {
        view_slots(&self.slots)
    }

    /// The globals and the receiver.
    pub closed spec fn ambient(&self) -> Ambient {
        Ambient { globals: view_props(&self.globals), this: self.this@ }
    }

    /// Whether `n` more slots fit on the stack.
    pub open spec fn has_room(&self, n: int) -> bool {
        self@.len() + n <= STACK_LIMIT
    }

    /// The absolute position that `idx` denotes on this stack.
    pub open spec fn at(&self, idx: int) -> int {
        resolve(self@.len() as int, idx)
    }

    /// Whether `idx` denotes a populated slot of this stack.
    pub open spec fn valid(&self, idx: int) -> bool {
        valid_index(self@.len() as int, idx)
    }

    /// The value that `idx` denotes.
    pub open spec fn slot(&self, idx: int) -> SlotView {
        self@[self.at(idx)]
    }

    /// An empty stack with no globals.
    pub fn new() -> (ctx: Context)
        ensures
            ctx.wf(),
            ctx@ == Seq::<SlotView>::empty(),
            ctx.ambient() == (Ambient { globals: Seq::empty(), this: SlotView::Undefined }),
    {
        let ctx = Context { slots: Vec::new(), globals: Vec::new(), this: Slot::Undefined };
        assert(ctx@ =~= Seq::<SlotView>::empty());
        assert(ctx.ambient().globals =~= Seq::<(Seq<u8>, SlotView)>::empty());
        ctx
    }

    /// The number of slots on the stack.
    pub fn stack_len(&self) -> (n: i32)
        requires
            self.wf(),
        ensures
            n == self@.len(),
    {
        self.slots.len() as i32
    }

    /// The absolute index of the top slot.
    pub fn stack_top(&self) -> (n: u32)
        requires
            self.wf(),
            self@.len() > 0,
        ensures
            n == self@.len() - 1,
    {
        (self.slots.len() - 1) as u32
    }

    /// How many more slots fit on the stack.
    pub fn room(&self) -> (n: usize)
        requires
            self.wf(),
        ensures
            n == STACK_LIMIT - self@.len(),
    {
        STACK_LIMIT - self.slots.len()
    }

    fn position(&self, idx: i32) -> (at: usize)
        requires
            self.wf(),
            self.valid(idx as int),
        ensures
            at == self.at(idx as int),
            at < self.slots.len(),
    {
        if idx >= 0 {
            idx as usize
        } else {
            (self.slots.len() as i64 + idx as i64) as usize
        }
    }

    /// Whether `idx` denotes a populated slot.
    pub fn is_valid_index(&self, idx: i32) -> (r: bool)
        requires
            self.wf(),
        ensures
            r == self.valid(idx as int),
    {
        let len = self.slots.len() as i64;
        let at: i64 = if idx >= 0 {
            idx as i64
        } else {
            len + idx as i64
        };
        0 <= at && at < len
    }

    /// Writes `slot` to the top of the stack.
    pub fn push_slot(&mut self, slot: Slot)
        requires
            old(self).wf(),
            old(self).has_room(1),
        ensures
            final(self).wf(),
            final(self)@ == old(self)@.push(slot@),
            final(self).ambient() == old(self).ambient(),
    {
        self.slots.push(slot);
        assert(self@ =~= old(self)@.push(slot@));
    }

    /// A copy of the value that `idx` denotes.
    pub fn peek_slot(&self, idx: i32) -> (slot: Slot)
        requires
            self.wf(),
            self.valid(idx as int),
        ensures
            slot@ == self.slot(idx as int),
    {
        let at = self.position(idx);
        self.slots[at].duplicate()
    }

    /// The dynamic type of the value that `idx` denotes.
    pub fn tag_at(&self, idx: i32) -> (t: Tag)
        requires
            self.wf(),
            self.valid(idx as int),
        ensures
            t == self.slot(idx as int).tag(),
    {
        let at = self.position(idx);
        self.slots[at].tag()
    }

    /// Allocates an empty object at the top of the stack and returns its
    /// absolute index.
    pub fn push_object(&mut self) -> (idx: i32)
        requires
            old(self).wf(),
            old(self).has_room(1),
        ensures
            final(self).wf(),
            final(self)@ == old(self)@.push(SlotView::Object(Seq::empty())),
            final(self).ambient() == old(self).ambient(),
            idx == old(self)@.len(),
    {
        let idx = self.stack_len();
        let slot = Slot::Object(Vec::new());
        assert(slot@->Object_0 =~= Seq::empty());
        self.push_slot(slot);
        idx
    }

    /// Allocates an empty array at the top of the stack and returns its
    /// absolute index.
    pub fn push_array(&mut self) -> (idx: i32)
        requires
            old(self).wf(),
            old(self).has_room(1),
        ensures
            final(self).wf(),
            final(self)@ == old(self)@.push(SlotView::Array(Seq::empty())),
            final(self).ambient() == old(self).ambient(),
            idx == old(self)@.len(),
    {
        let idx = self.stack_len();
        let slot = Slot::Array(Vec::new());
        assert(slot@->Array_0 =~= Seq::empty());
        self.push_slot(slot);
        idx
    }

    /// Writes `null` to the top of the stack.
    pub fn push_null(&mut self)
        requires
            old(self).wf(),
            old(self).has_room(1),
        ensures
            final(self).wf(),
            final(self)@ == old(self)@.push(SlotView::Null),
            final(self).ambient() == old(self).ambient(),
    {
        self.push_slot(Slot::Null);
    }

    /// Writes `undefined` to the top of the stack.
    pub fn push_undefined(&mut self)
        requires
            old(self).wf(),
            old(self).has_room(1),
        ensures
            final(self).wf(),
            final(self)@ == old(self)@.push(SlotView::Undefined),
            final(self).ambient() == old(self).ambient(),
    {
        self.push_slot(Slot::Undefined);
    }

    /// Writes a boolean to the top of the stack.
    pub fn push_bool(&mut self, value: bool)
        requires
            old(self).wf(),
            old(self).has_room(1),
        ensures
            final(self).wf(),
            final(self)@ == old(self)@.push(SlotView::Boolean(value)),
            final(self).ambient() == old(self).ambient(),
    {
        self.push_slot(Slot::Boolean(value));
    }

    /// Writes a signed number to the top of the stack.
    pub fn push_int(&mut self, value: i32)
        requires
            old(self).wf(),
            old(self).has_room(1),
        ensures
            final(self).wf(),
            final(self)@ == old(self)@.push(SlotView::Number(value as int)),
            final(self).ambient() == old(self).ambient(),
    {
        self.push_slot(Slot::Number(value as i64));
    }

    /// Writes an unsigned number to the top of the stack.
    pub fn push_uint(&mut self, value: u32)
        requires
            old(self).wf(),
            old(self).has_room(1),
        ensures
            final(self).wf(),
            final(self)@ == old(self)@.push(SlotView::Number(value as int)),
            final(self).ambient() == old(self).ambient(),
    {
        self.push_slot(Slot::Number(value as i64));
    }

    /// Writes a number to the top of the stack by the bits of its
    /// double-precision form.
    pub fn push_double_bits(&mut self, bits: u64)
        requires
            old(self).wf(),
            old(self).has_room(1),
        ensures
            final(self).wf(),
            final(self)@ == old(self)@.push(SlotView::Double(bits)),
            final(self).ambient() == old(self).ambient(),
    {
        self.push_slot(Slot::Double(bits));
    }

    /// Writes a string to the top of the stack.
    pub fn push_string(&mut self, value: &str)
        requires
            old(self).wf(),
            old(self).has_room(1),
        ensures
            final(self).wf(),
            final(self)@ == old(self)@.push(SlotView::Text(value@)),
            final(self).ambient() == old(self).ambient(),
    {
        self.push_slot(Slot::Text(value.to_owned()));
    }

    /// Copies `bytes` into a fresh raw buffer at the top of the stack.
    pub fn push_buffer(&mut self, bytes: &[u8])
        requires
            old(self).wf(),
            old(self).has_room(1),
        ensures
            final(self).wf(),
            final(self)@ == old(self)@.push(SlotView::Buffer(bytes@)),
            final(self).ambient() == old(self).ambient(),
    {
        self.push_slot(Slot::Buffer(slice_to_vec(bytes)));
    }

    /// Writes a pointer value to the top of the stack.
    pub fn push_pointer(&mut self, value: usize)
        requires
            old(self).wf(),
            old(self).has_room(1),
        ensures
            final(self).wf(),
            final(self)@ == old(self)@.push(SlotView::Pointer(value as int)),
            final(self).ambient() == old(self).ambient(),
    {
        self.push_slot(Slot::Pointer(value));
    }

    /// Removes the top slot.
    pub fn pop(&mut self)
        requires
            old(self).wf(),
            old(self)@.len() > 0,
        ensures
            final(self).wf(),
            final(self)@ == old(self)@.drop_last(),
            final(self).ambient() == old(self).ambient(),
    {
        let _ = self.slots.pop();
        assert(self@ =~= old(self)@.drop_last());
    }

    /// Removes the top `n` slots.
    pub fn pop_n(&mut self, n: i32)
        requires
            old(self).wf(),
            0 <= n <= old(self)@.len(),
        ensures
            final(self).wf(),
            final(self)@ == old(self)@.subrange(0, old(self)@.len() - n),
            final(self).ambient() == old(self).ambient(),
    {
        let keep = self.slots.len() - n as usize;
        self.slots.truncate(keep);
        assert(self@ =~= old(self)@.subrange(0, old(self)@.len() - n));
    }

    /// Pushes a copy of the value that `idx` denotes.
    pub fn dup(&mut self, idx: i32)
        requires
            old(self).wf(),
            old(self).valid(idx as int),
            old(self).has_room(1),
        ensures
            final(self).wf(),
            final(self)@ == old(self)@.push(old(self).slot(idx as int)),
            final(self).ambient() == old(self).ambient(),
    {
        let copy = self.peek_slot(idx);
        self.push_slot(copy);
    }

    /// Exchanges the values that `a` and `b` denote.
    pub fn swap(&mut self, a: i32, b: i32)
        requires
            old(self).wf(),
            old(self).valid(a as int),
            old(self).valid(b as int),
        ensures
            final(self).wf(),
            final(self)@ == old(self)@.update(old(self).at(a as int), old(self).slot(b as int)).update(
                old(self).at(b as int),
                old(self).slot(a as int),
            ),
            final(self).ambient() == old(self).ambient(),
    {
        let pa = self.position(a);
        let pb = self.position(b);
        let va = self.slots[pa].duplicate();
        let vb = self.slots[pb].duplicate();
        self.slots.set(pa, vb);
        self.slots.set(pb, va);
        assert(self@ =~= old(self)@.update(pa as int, old(self)@[pb as int]).update(
            pb as int,
            old(self)@[pa as int],
        ));
    }

    /// Binds the top value under `key` on the object that `obj_idx` denotes,
    /// and removes the top value.
    pub fn put_prop_bytes(&mut self, obj_idx: i32, key: &[u8])
        requires
            old(self).wf(),
            old(self).valid(obj_idx as int),
            old(self).at(obj_idx as int) < old(self)@.len() - 1,
            old(self).slot(obj_idx as int) is Object,
        ensures
            final(self).wf(),
            final(self)@ == old(self)@.drop_last().update(
                old(self).at(obj_idx as int),
                SlotView::Object(
                    bind_key(old(self).slot(obj_idx as int)->Object_0, key@, old(self)@.last()),
                ),
            ),
            final(self).ambient() == old(self).ambient(),
    {
        let at = self.position(obj_idx);
        let value = self.slots.pop().unwrap();
        let target = self.slots.remove(at);
        let ghost before = target@->Object_0;
        let bound = match target {
            Slot::Object(props) => Slot::Object(bind(props, key, value)),
            other => other,
        };
        self.slots.insert(at, bound);
        assert(self@ =~= old(self)@.drop_last().update(
            at as int,
            SlotView::Object(bind_key(before, key@, old(self)@.last())),
        ));
    }

    /// Binds the top value under the property named `name` on the object that
    /// `obj_idx` denotes, and removes the top value.
    pub fn put_prop_string(&mut self, obj_idx: i32, name: &str)
        requires
            old(self).wf(),
            old(self).valid(obj_idx as int),
            old(self).at(obj_idx as int) < old(self)@.len() - 1,
            old(self).slot(obj_idx as int) is Object,
        ensures
            final(self).wf(),
            final(self)@ == old(self)@.drop_last().update(
                old(self).at(obj_idx as int),
                SlotView::Object(
                    bind_key(
                        old(self).slot(obj_idx as int)->Object_0,
                        encode_utf8(name@),
                        old(self)@.last(),
                    ),
                ),
            ),
            final(self).ambient() == old(self).ambient(),
    {
        self.put_prop_bytes(obj_idx, name.as_bytes());
    }

    /// Stores the top value at `index` of the array that `obj_idx` denotes,
    /// and removes the top value.
    pub fn put_prop_index(&mut self, obj_idx: i32, index: u32)
        requires
            old(self).wf(),
            old(self).valid(obj_idx as int),
            old(self).at(obj_idx as int) < old(self)@.len() - 1,
            old(self).slot(obj_idx as int) is Array,
        ensures
            final(self).wf(),
            final(self)@ == old(self)@.drop_last().update(
                old(self).at(obj_idx as int),
                SlotView::Array(
                    store_at(old(self).slot(obj_idx as int)->Array_0, index as int, old(self)@.last()),
                ),
            ),
            final(self).ambient() == old(self).ambient(),
    {
        let at = self.position(obj_idx);
        let value = self.slots.pop().unwrap();
        let target = self.slots.remove(at);
        let ghost before = target@->Array_0;
        let stored = match target {
            Slot::Array(items) => Slot::Array(store(items, index, value)),
            other => other,
        };
        self.slots.insert(at, stored);
        assert(self@ =~= old(self)@.drop_last().update(
            at as int,
            SlotView::Array(store_at(before, index as int, old(self)@.last())),
        ));
    }

    /// Looks `key` up on the value that `idx` denotes. Where that value is an
    /// object with such a property, pushes the property's value and returns
    /// `true`; otherwise leaves the stack as it is and returns `false`.
    pub fn get_prop_bytes(&mut self, idx: i32, key: &[u8]) -> (found: bool)
        requires
            old(self).wf(),
            old(self).valid(idx as int),
            old(self).has_room(1),
        ensures
            final(self).wf(),
            found == (old(self).slot(idx as int) matches SlotView::Object(props) && has_key(
                props,
                key@,
            )),
            found ==> final(self)@ == old(self)@.push(
                old(self).slot(idx as int)->Object_0[find_key(
                    old(self).slot(idx as int)->Object_0,
                    key@,
                )].1,
            ),
            !found ==> final(self)@ == old(self)@,
            final(self).ambient() == old(self).ambient(),
    {
        let at = self.position(idx);
        let hit = match &self.slots[at] {
            Slot::Object(props) => {
                proof {
                    lemma_find_key(view_props(props), key@);
                }
                let p = position_of(props, key);
                if p < props.len() {
                    Some(props[p].value.duplicate())
                } else {
                    None
                }
            },
            _ => None,
        };
        match hit {
            Some(value) => {
                self.push_slot(value);
                true
            },
            None => false,
        }
    }

    /// Looks the property named `name` up on the value that `idx` denotes;
    /// see [`Context::get_prop_bytes`].
    pub fn get_prop(&mut self, idx: i32, name: &str) -> (found: bool)
        requires
            old(self).wf(),
            old(self).valid(idx as int),
            old(self).has_room(1),
        ensures
            final(self).wf(),
            found == (old(self).slot(idx as int) matches SlotView::Object(props) && has_key(
                props,
                encode_utf8(name@),
            )),
            found ==> final(self)@ == old(self)@.push(
                old(self).slot(idx as int)->Object_0[find_key(
                    old(self).slot(idx as int)->Object_0,
                    encode_utf8(name@),
                )].1,
            ),
            !found ==> final(self)@ == old(self)@,
            final(self).ambient() == old(self).ambient(),
    {
        self.get_prop_bytes(idx, name.as_bytes())
    }

    /// Binds the top value under the global name `name` and removes it from
    /// the stack.
    pub fn put_global_string(&mut self, name: &str)
        requires
            old(self).wf(),
            old(self)@.len() > 0,
        ensures
            final(self).wf(),
            final(self)@ == old(self)@.drop_last(),
            final(self).ambient() == (Ambient {
                globals: bind_key(
                    old(self).ambient().globals,
                    encode_utf8(name@),
                    old(self)@.last(),
                ),
                this: old(self).ambient().this,
            }),
    {
        let value = self.slots.pop().unwrap();
        let mut table: Vec<Property> = Vec::new();
        std::mem::swap(&mut table, &mut self.globals);
        self.globals = bind(table, name.as_bytes(), value);
        assert(self@ =~= old(self)@.drop_last());
    }

    /// Looks the global name `name` up. Where it is bound, pushes its value
    /// and returns `true`; otherwise leaves the stack as it is and returns
    /// `false`.
    pub fn get_global_str(&mut self, name: &str) -> (found: bool)
        requires
            old(self).wf(),
            old(self).has_room(1),
        ensures
            final(self).wf(),
            found == has_key(old(self).ambient().globals, encode_utf8(name@)),
            found ==> final(self)@ == old(self)@.push(
                old(self).ambient().globals[find_key(
                    old(self).ambient().globals,
                    encode_utf8(name@),
                )].1,
            ),
            !found ==> final(self)@ == old(self)@,
            final(self).ambient() == old(self).ambient(),
    {
        proof {
            lemma_find_key(self.ambient().globals, encode_utf8(name@));
        }
        let p = position_of(&self.globals, name.as_bytes());
        if p < self.globals.len() {
            let value = self.globals[p].value.duplicate();
            self.push_slot(value);
            true
        } else {
            false
        }
    }

    /// Makes the value at the top of the stack the receiver of the call in
    /// progress, and removes it from the stack.
    pub fn set_this(&mut self)
        requires
            old(self).wf(),
            old(self)@.len() > 0,
        ensures
            final(self).wf(),
            final(self)@ == old(self)@.drop_last(),
            final(self).ambient() == (Ambient {
                globals: old(self).ambient().globals,
                this: old(self)@.last(),
            }),
    {
        let value = self.slots.pop().unwrap();
        self.this = value;
        assert(self@ =~= old(self)@.drop_last());
    }

    /// Pushes a copy of the receiver of the call in progress.
    pub fn push_this(&mut self)
        requires
            old(self).wf(),
            old(self).has_room(1),
        ensures
            final(self).wf(),
            final(self)@ == old(self)@.push(old(self).ambient().this),
            final(self).ambient() == old(self).ambient(),
    {
        let value = self.this.duplicate();
        self.push_slot(value);
    }

    /// Takes the top `n` slots off the stack and keeps them aside, with
    /// everything below them: the stack is left holding nothing but those
    /// `n` slots, the frame of a call.
    fn enter_frame(&mut self, n: usize) -> (below: Vec<Slot>)
        requires
            old(self).wf(),
            n <= old(self)@.len(),
        ensures
            final(self).wf(),
            final(self)@ == old(self)@.subrange(old(self)@.len() - n, old(self)@.len() as int),
            view_slots(&below) == old(self)@.subrange(0, old(self)@.len() - n),
            final(self).ambient() == old(self).ambient(),
    {
        let at = self.slots.len() - n;
        let frame = self.slots.split_off(at);
        let mut below: Vec<Slot> = Vec::new();
        std::mem::swap(&mut below, &mut self.slots);
        self.slots = frame;
        assert(self@ =~= old(self)@.subrange(old(self)@.len() - n, old(self)@.len() as int));
        assert(view_slots(&below) =~= old(self)@.subrange(0, old(self)@.len() - n));
        below
    }

    /// Puts back what was kept aside below a frame, with `result` on top
    /// in place of the frame.
    fn leave_frame(&mut self, below: Vec<Slot>, result: Slot)
        requires
            below.len() < STACK_LIMIT,
        ensures
            final(self).wf(),
            final(self)@ == view_slots(&below).push(result@),
            final(self).ambient() == old(self).ambient(),
    {
        self.slots = below;
        self.slots.push(result);
        assert(self@ =~= view_slots(&below).push(result@));
    }

    /// Whether the slot is the callable that stands for `f`.
    pub open spec fn stands_for<F: crate::function::Function>(slot: SlotView, f: &F) -> bool {
        slot matches SlotView::Function { entry, .. } && entry == f.address()
    }

    /// Calls the callable that sits below the top `n_args` slots, with those
    /// slots as its arguments in call order. `f` is the native function that
    /// the callable stands for; it runs once, on a stack that holds the
    /// arguments alone, with the globals and the receiver as they are. The
    /// callable and the arguments are replaced by one slot: the value the
    /// function left on top where it reports a result, `undefined` where it
    /// reports none or left nothing, and on failure the description of the
    /// failure, which is also returned. A slot that is no callable, or
    /// stands for another function than `f`, fails as `not callable`
    /// without running anything; a negative return code fails as
    /// `function failed`.
    pub fn call<F: crate::function::Function>(&mut self, n_args: i32, f: &F) -> (res: Result<
        (),
        crate::Error,
    >)
        requires
            old(self).wf(),
            0 <= n_args < old(self)@.len(),
        ensures
            final(self).wf(),
            final(self)@.len() == old(self)@.len() - n_args,
            final(self)@.subrange(0, old(self)@.len() - n_args - 1) == old(self)@.subrange(
                0,
                old(self)@.len() - n_args - 1,
            ),
            res matches Err(e) ==> final(self)@.last() == SlotView::Text(e.text()),
            !Self::stands_for(old(self)@[old(self)@.len() - n_args - 1], f) <==> (res matches Err(e)
                && e.text() == "not callable"@),
            !Self::stands_for(old(self)@[old(self)@.len() - n_args - 1], f) ==> final(self).ambient()
                == old(self).ambient(),
            Self::stands_for(old(self)@[old(self)@.len() - n_args - 1], f) ==> exists|
                before: Context,
                after: Context,
                rv: int,
            |
                {
                    &&& before.wf()
                    &&& before@ == old(self)@.subrange(
                        old(self)@.len() - n_args,
                        old(self)@.len() as int,
                    )
                    &&& before.ambient() == old(self).ambient()
                    &&& #[trigger] f.runs(&before, &after, rv)
                    &&& final(self).ambient() == after.ambient()
                    &&& (res is Err <==> rv < 0)
                    &&& (res matches Err(e) ==> e.text() == "function failed"@)
                    &&& (res is Ok ==> final(self)@.last() == if rv > 0 && after@.len() > 0 {
                        after@.last()
                    } else {
                        SlotView::Undefined
                    })
                },
    {
        proof {
            lemma_failures_differ();
        }
        let ghost stack = self@;
        let ghost base = stack.subrange(0, stack.len() - n_args - 1);
        let below = self.enter_frame(n_args as usize + 1);
        let ghost frame = self@;
        assert(self.slots.len() == frame.len());
        assert(below.len() == view_slots(&below).len());
        let ghost held = self.slots@;
        let callable = self.slots.remove(0);
        assert(callable@ == frame[0]);
        assert(self.wf());
        assert forall|i: int| 0 <= i < self@.len() implies self@[i] == frame[i + 1] by {
            assert(self.slots@[i] == held[i + 1]);
        }
        assert(self@ =~= stack.subrange(stack.len() - n_args, stack.len() as int));
        let known = match callable {
            Slot::Function { entry, .. } => entry == f.ptr(),
            _ => false,
        };
        if !known {
            let e = crate::Error::Message("not callable".to_owned());
            let description = Slot::Text(e.message());
            self.leave_frame(below, description);
            assert(self@.subrange(0, stack.len() - n_args - 1) =~= base);
            return Err(e);
        }
        let ghost before = *self;
        let rv = f.call(self);
        let ghost after = *self;
        let top = self.slots.pop();
        assert(top is Some <==> after@.len() > 0);
        assert(top is Some ==> top.unwrap()@ == after@.last());
        match frame_result(rv, top) {
            Ok(result) => {
                self.leave_frame(below, result);
                assert(self@.subrange(0, stack.len() - n_args - 1) =~= base);
                assert(f.runs(&before, &after, rv as int));
                Ok(())
            },
            Err(e) => {
                let description = Slot::Text(e.message());
                self.leave_frame(below, description);
                assert(self@.subrange(0, stack.len() - n_args - 1) =~= base);
                assert(f.runs(&before, &after, rv as int));
                Err(e)
            },
        }
    }

    /// The boolean that `idx` denotes.
    pub fn get_bool(&self, idx: i32) -> (value: bool)
        requires
            self.wf(),
            self.valid(idx as int),
            self.slot(idx as int) is Boolean,
        ensures
            self.slot(idx as int) == SlotView::Boolean(value),
    {
        let at = self.position(idx);
        match &self.slots[at] {
            Slot::Boolean(b) => *b,
            _ => false,
        }
    }

    /// The number that `idx` denotes, clamped to the unsigned 32-bit range.
    pub fn get_uint(&self, idx: i32) -> (value: u32)
        requires
            self.wf(),
            self.valid(idx as int),
            self.slot(idx as int) is Number,
        ensures
            value == clamp_uint(self.slot(idx as int)->Number_0),
    {
        let at = self.position(idx);
        match &self.slots[at] {
            Slot::Number(n) => {
                if *n < 0 {
                    0
                } else if *n > u32::MAX as i64 {
                    u32::MAX
                } else {
                    *n as u32
                }
            },
            _ => 0,
        }
    }

    /// The number that `idx` denotes, clamped to the signed 32-bit range.
    pub fn get_int(&self, idx: i32) -> (value: i32)
        requires
            self.wf(),
            self.valid(idx as int),
            self.slot(idx as int) is Number,
        ensures
            value == clamp_int(self.slot(idx as int)->Number_0),
    {
        let at = self.position(idx);
        match &self.slots[at] {
            Slot::Number(n) => {
                if *n < i32::MIN as i64 {
                    i32::MIN
                } else if *n > i32::MAX as i64 {
                    i32::MAX
                } else {
                    *n as i32
                }
            },
            _ => 0,
        }
    }

    /// The bits of the number that `idx` denotes, where it is carried by
    /// its bits.
    pub fn get_double_bits(&self, idx: i32) -> (bits: u64)
        requires
            self.wf(),
            self.valid(idx as int),
            self.slot(idx as int) is Double,
        ensures
            self.slot(idx as int) == SlotView::Double(bits),
    {
        let at = self.position(idx);
        match &self.slots[at] {
            Slot::Double(bits) => *bits,
            _ => 0,
        }
    }

    /// Checks that `idx` denotes `null`.
    pub fn get_null(&self, idx: i32)
        requires
            self.wf(),
            self.valid(idx as int),
            self.slot(idx as int) is Null,
    {
    }

    /// Checks that `idx` denotes an object, an array or a callable.
    pub fn get_object(&self, idx: i32)
        requires
            self.wf(),
            self.valid(idx as int),
            self.slot(idx as int).is_object_like(),
    {
    }

    /// A copy of the string that `idx` denotes.
    pub fn get_string(&self, idx: i32) -> (value: String)
        requires
            self.wf(),
            self.valid(idx as int),
            self.slot(idx as int) is Text,
        ensures
            self.slot(idx as int) == SlotView::Text(value@),
    {
        let at = self.position(idx);
        match &self.slots[at] {
            Slot::Text(s) => s.clone(),
            _ => String::new(),
        }
    }

    /// A copy of the raw buffer that `idx` denotes.
    pub fn get_buffer(&self, idx: i32) -> (value: Vec<u8>)
        requires
            self.wf(),
            self.valid(idx as int),
            self.slot(idx as int) is Buffer,
        ensures
            self.slot(idx as int) == SlotView::Buffer(value@),
    {
        let at = self.position(idx);
        match &self.slots[at] {
            Slot::Buffer(b) => b.clone(),
            _ => Vec::new(),
        }
    }

    /// The pointer value that `idx` denotes.
    pub fn get_pointer(&self, idx: i32) -> (value: usize)
        requires
            self.wf(),
            self.valid(idx as int),
            self.slot(idx as int) is Pointer,
        ensures
            self.slot(idx as int) == SlotView::Pointer(value as int),
    {
        let at = self.position(idx);
        match &self.slots[at] {
            Slot::Pointer(p) => *p,
            _ => 0,
        }
    }
}

impl Default for Context {
    fn default() -> (ctx: Context)
        ensures
            ctx.wf(),
            ctx@ == Seq::<SlotView>::empty(),
            ctx.ambient() == (Ambient { globals: Seq::empty(), this: SlotView::Undefined }),
    {
        Context::new()
    }
}

/// The two failures of a call have different descriptions.
pub proof fn lemma_failures_differ()
    ensures
        "not callable"@ != "function failed"@,
{
    reveal_strlit("not callable");
    reveal_strlit("function failed");
    assert("not callable"@.len() != "function failed"@.len());
}

/// What a call leaves in place of the callable and its arguments, given the
/// return code of the function and the value on top of its frame, if any: a
/// negative code is the failure `function failed`, a code of zero or an
/// empty frame gives `undefined`, and any other code gives the value on top.
pub fn frame_result(rv: i32, top: Option<Slot>) -> (res: Result<Slot, crate::Error>)
    ensures
        rv < 0 ==> (res matches Err(e) && e.text() == "function failed"@),
        rv == 0 || (rv > 0 && top is None) ==> (res matches Ok(slot) && slot@
            == SlotView::Undefined),
        rv > 0 && top is Some ==> (res matches Ok(slot) && slot@ == top.unwrap()@),
{
    if rv < 0 {
        Err(crate::Error::Message("function failed".to_owned()))
    } else if rv == 0 {
        Ok(Slot::Undefined)
    } else {
        match top {
            Some(slot) => Ok(slot),
            None => Ok(Slot::Undefined),
        }
    }
}

/// Binds `key` to `value` in `props`.
fn bind(props: Vec<Property>, key: &[u8], value: Slot) -> (out: Vec<Property>)
    ensures
        view_props(&out) == bind_key(view_props(&props), key@, value@),
{
    let mut out = props;
    let at = position_of(&out, key);
    let entry = Property { key: slice_to_vec(key), value };
    if at < out.len() {
        out.set(at, entry);
    } else {
        out.push(entry);
    }
    assert(view_props(&out) =~= bind_key(view_props(&props), key@, value@));
    out
}

/// Stores `value` at `index` of `items`, padding a gap with `undefined`.
fn store(items: Vec<Slot>, index: u32, value: Slot) -> (out: Vec<Slot>)
    ensures
        view_slots(&out) == store_at(view_slots(&items), index as int, value@),
{
    let mut out = items;
    let at = index as usize;
    if at < out.len() {
        out.set(at, value);
    } else {
        while out.len() < at
            invariant
                items.len() <= out.len() <= at,
                forall|j: int| 0 <= j < items.len() ==> out[j]@ == items[j]@,
                forall|j: int| items.len() <= j < out.len() ==> out[j]@ == SlotView::Undefined,
            decreases at - out.len(),
        {
            out.push(Slot::Undefined);
        }
        out.push(value);
    }
    assert(view_slots(&out) =~= store_at(view_slots(&items), index as int, value@));
    out
}

} // verus!
