//! The ownership bridge for reference-counted native objects.
//!
//! A shared native object crosses into the engine as a wrapper object that
//! carries the identity of its allocation and the name of its type. The
//! type name is checked on every read. A read that leaves the wrapper on
//! the stack makes one more owner; a read that takes the wrapper off the
//! stack hands the stack's ownership over and makes none.

use crate::context::Context;
use crate::slot::{bind_key, find_key, has_key, lemma_find_key, SlotView, Tag};
use crate::value::{PeekError, PeekFault, PushValue};
use std::collections::HashMap;
use vstd::prelude::*;
use vstd::utf8::encode_utf8;

verus! {

broadcast use vstd::std_specs::hash::group_hash_axioms;

/// A reference-counted native object, by the identity of its allocation and
/// the name of its type. Each handle is one owner of the allocation.
#[derive(Debug)]
pub struct Handle {
    pub ptr: usize,
    pub type_tag: String,
}

/// The key under which a wrapper carries the allocation.
pub open spec fn rc_key() -> Seq<u8> {
    encode_utf8("__rc"@)
}

/// The key under which a wrapper carries the type name.
pub open spec fn type_key() -> Seq<u8> {
    encode_utf8("__type"@)
}

/// The wrapper object of the allocation `ptr` of type `type_tag`.
pub open spec fn wrapper(ptr: int, type_tag: Seq<char>) -> SlotView {
    SlotView::Object(
        bind_key(
            bind_key(Seq::empty(), rc_key(), SlotView::Pointer(ptr)),
            type_key(),
            SlotView::Text(type_tag),
        ),
    )
}

/// The allocation that a slot wraps when read as a handle of type
/// `type_tag`, or why it cannot be read: the slot must be an object, carry
/// a type name equal to `type_tag`, and carry a pointer.
pub open spec fn wrapped(slot: SlotView, type_tag: Seq<char>) -> Result<int, PeekFault> {
    match slot {
        SlotView::Object(props) => if !has_key(props, type_key()) {
            Err(PeekFault::Prop("__type"@))
        } else {
            match props[find_key(props, type_key())].1 {
                SlotView::Text(found) => if found != type_tag {
                    Err(PeekFault::Type)
                } else if !has_key(props, rc_key()) {
                    Err(PeekFault::Prop("__rc"@))
                } else {
                    match props[find_key(props, rc_key())].1 {
                        SlotView::Pointer(ptr) => Ok(ptr),
                        _ => Err(PeekFault::Type),
                    }
                },
                _ => Err(PeekFault::Type),
            }
        },
        _ => Err(PeekFault::Type),
    }
}

/// What reading a wrapper amounts to: the allocation, and whether the read
/// makes one more owner of it.
#[derive(Debug)]
pub struct RcRead {
    pub ptr: usize,
    pub retain: bool,
}

/// Reads the wrapper at `idx` as a handle of type `type_tag` and leaves
/// the stack as it is. With `copy` the read makes one more owner: the
/// wrapper stays on the stack and keeps its own.
pub fn peek_rc(ctx: &mut Context, idx: i32, type_tag: &str, copy: bool) -> (res: Result<
    RcRead,
    PeekError,
>)
    requires
        old(ctx).wf(),
        old(ctx).valid(idx as int),
        old(ctx).has_room(1),
    ensures
        final(ctx).wf(),
        final(ctx)@ == old(ctx)@,
        final(ctx).ambient() == old(ctx).ambient(),
        match wrapped(old(ctx).slot(idx as int), type_tag@) {
            Ok(ptr) => res matches Ok(read) && read.ptr == ptr && read.retain == copy,
            Err(f) => res matches Err(e) && e@ == f,
        },
{
    let ghost stack = ctx@;
    match ctx.tag_at(idx) {
        Tag::Object => {},
        _ => {
            return Err(PeekError::Type);
        },
    }
    ctx.get_object(idx);
    let len = ctx.stack_len();
    let at = if idx >= 0 {
        idx
    } else {
        len + idx
    };
    if !ctx.get_prop(at, "__type") {
        return Err(PeekError::Prop("__type".to_owned()));
    }
    let typ = match ctx.tag_at(-1) {
        Tag::Text => Some(ctx.get_string(-1)),
        _ => None,
    };
    ctx.pop();
    assert(ctx@ =~= stack);
    let typ = match typ {
        Some(typ) => typ,
        None => {
            return Err(PeekError::Type);
        },
    };
    if typ != type_tag.to_owned() {
        return Err(PeekError::Type);
    }
    if !ctx.get_prop(at, "__rc") {
        return Err(PeekError::Prop("__rc".to_owned()));
    }
    let ptr = match ctx.tag_at(-1) {
        Tag::Pointer => Some(ctx.get_pointer(-1)),
        _ => None,
    };
    ctx.pop();
    assert(ctx@ =~= stack);
    match ptr {
        Some(ptr) => Ok(RcRead { ptr, retain: copy }),
        None => Err(PeekError::Type),
    }
}

impl PushValue for Handle {
    open spec fn accepted(&self) -> bool {
        true
    }

    open spec fn slot(&self) -> SlotView {
        wrapper(self.ptr as int, self.type_tag@)
    }

    open spec fn room(&self) -> nat {
        2
    }

    /// Hands the handle's ownership to a wrapper object on the stack.
    fn push_to(self, ctx: &mut Context) -> (idx: u32) {
        let idx = ctx.push_object();
        ctx.push_pointer(self.ptr);
        ctx.put_prop_string(idx, "__rc");
        ctx.push_string(self.type_tag.as_str());
        ctx.put_prop_string(idx, "__type");
        assert(ctx@ =~= old(ctx)@.push(self.slot()));
        idx as u32
    }
}

/// The strong counts of the shared allocations.
pub struct Ledger {
    counts: HashMap<usize, usize>,
}

/// A step in the life of a handle.
#[derive(Clone, Copy, Debug, PartialEq, Eq, Structural)]
pub enum HandleOp {
    /// A handle moves into a wrapper on the stack.
    Push,
    /// A wrapper is read and stays on the stack.
    Peek,
    /// A wrapper is read and leaves the stack.
    Pop,
    /// A handle is dropped.
    Drop,
}

/// The strong count after a step.
pub open spec fn count_after(count: int, op: HandleOp) -> int {
    match op {
        HandleOp::Push => count,
        HandleOp::Peek => count + 1,
        HandleOp::Pop => count,
        HandleOp::Drop => count - 1,
    }
}

/// The owners of an allocation: the handles held in native code and the
/// wrappers on the stack.
pub ghost struct Owners {
    pub handles: int,
    pub wrappers: int,
}

/// Whether a step can be taken: there must be a handle to push or drop, and
/// a wrapper to read.
pub open spec fn enabled(owners: Owners, op: HandleOp) -> bool {
    match op {
        HandleOp::Push => owners.handles >= 1,
        HandleOp::Peek => owners.wrappers >= 1,
        HandleOp::Pop => owners.wrappers >= 1,
        HandleOp::Drop => owners.handles >= 1,
    }
}

/// The owners after a step.
pub open spec fn owners_after(owners: Owners, op: HandleOp) -> Owners {
    match op {
        HandleOp::Push => Owners { handles: owners.handles - 1, wrappers: owners.wrappers + 1 },
        HandleOp::Peek => Owners { handles: owners.handles + 1, wrappers: owners.wrappers },
        HandleOp::Pop => Owners { handles: owners.handles + 1, wrappers: owners.wrappers - 1 },
        HandleOp::Drop => Owners { handles: owners.handles - 1, wrappers: owners.wrappers },
    }
}

/// The strong count after a run of steps.
pub open spec fn count_after_all(count: int, ops: Seq<HandleOp>) -> int
    decreases ops.len(),
{
    if ops.len() == 0 {
        count
    } else {
        count_after(count_after_all(count, ops.drop_last()), ops.last())
    }
}

/// The owners after a run of steps.
pub open spec fn owners_after_all(owners: Owners, ops: Seq<HandleOp>) -> Owners
    decreases ops.len(),
{
    if ops.len() == 0 {
        owners
    } else {
        owners_after(owners_after_all(owners, ops.drop_last()), ops.last())
    }
}

/// Whether each step of a run can be taken when its turn comes.
pub open spec fn enabled_all(owners: Owners, ops: Seq<HandleOp>) -> bool
    decreases ops.len(),
{
    if ops.len() == 0 {
        true
    } else {
        enabled_all(owners, ops.drop_last()) && enabled(
            owners_after_all(owners, ops.drop_last()),
            ops.last(),
        )
    }
}

/// The reference-count discipline: where the strong count of an allocation
/// equals the number of its owners, it still does after any run of steps
/// that can be taken, and it never falls below zero on the way. So the
/// count neither undershoots nor overshoots across pushes, reads and drops.
pub proof fn lemma_count_discipline(count: int, owners: Owners, ops: Seq<HandleOp>)
    requires
        owners.handles >= 0,
        owners.wrappers >= 0,
        count == owners.handles + owners.wrappers,
        enabled_all(owners, ops),
    ensures
        owners_after_all(owners, ops).handles >= 0,
        owners_after_all(owners, ops).wrappers >= 0,
        count_after_all(count, ops) == owners_after_all(owners, ops).handles + owners_after_all(
            owners,
            ops,
        ).wrappers,
    decreases ops.len(),
{
    if ops.len() > 0 {
        lemma_count_discipline(count, owners, ops.drop_last());
    }
}

impl Ledger {
    /// The strong count of the allocation `ptr`: zero where it is not live.
    pub closed spec fn count(&self, ptr: int) -> int {
        if 0 <= ptr <= usize::MAX && self.counts@.contains_key(ptr as usize) {
            self.counts@[ptr as usize] as int
        } else {
            0
        }
    }

    /// A ledger without live allocations.
    pub fn new() -> (ledger: Ledger)
        ensures
            forall|ptr: int| ledger.count(ptr) == 0,
    {
        Ledger { counts: HashMap::new() }
    }

    /// The strong count of the allocation behind `handle`.
    pub fn strong_count(&self, handle: &Handle) -> (n: usize)
        ensures
            n == self.count(handle.ptr as int),
    {
        match self.counts.get(&handle.ptr) {
            Some(n) => *n,
            None => 0,
        }
    }

    fn set(&mut self, ptr: usize, n: usize)
        ensures
            final(self).count(ptr as int) == n,
            forall|other: int| other != ptr ==> final(self).count(other) == old(self).count(other),
    {
        let _ = self.counts.insert(ptr, n);
    }

    /// Notes a fresh allocation `ptr` of type `type_tag` and gives its
    /// first handle: the strong count is one.
    pub fn create(&mut self, ptr: usize, type_tag: &str) -> (handle: Handle)
        requires
            old(self).count(ptr as int) == 0,
        ensures
            handle.ptr == ptr,
            handle.type_tag@ == type_tag@,
            final(self).count(ptr as int) == 1,
            forall|other: int| other != ptr ==> final(self).count(other) == old(self).count(other),
    {
        self.set(ptr, 1);
        Handle { ptr, type_tag: type_tag.to_owned() }
    }

    /// Notes one more owner of the allocation `ptr`.
    pub fn retain(&mut self, ptr: usize)
        requires
            old(self).count(ptr as int) < usize::MAX,
        ensures
            final(self).count(ptr as int) == count_after(
                old(self).count(ptr as int),
                HandleOp::Peek,
            ),
            forall|other: int| other != ptr ==> final(self).count(other) == old(self).count(other),
    {
        let n = match self.counts.get(&ptr) {
            Some(n) => *n,
            None => 0,
        };
        self.set(ptr, n + 1);
    }

    /// Drops `handle`: its allocation has one owner less.
    pub fn release(&mut self, handle: Handle)
        requires
            old(self).count(handle.ptr as int) >= 1,
        ensures
            final(self).count(handle.ptr as int) == count_after(
                old(self).count(handle.ptr as int),
                HandleOp::Drop,
            ),
            forall|other: int|
                other != handle.ptr ==> final(self).count(other) == old(self).count(other),
    {
        let n = match self.counts.get(&handle.ptr) {
            Some(n) => *n,
            None => 0,
        };
        self.set(handle.ptr, n - 1);
    }
}

impl Handle {
    /// Reads the wrapper at `idx` as a handle of type `type_tag`. The
    /// wrapper stays on the stack and keeps its ownership, so the handle
    /// read is one more owner: the strong count goes up by one. A failed
    /// read changes nothing.
    pub fn peek_at(ctx: &mut Context, ledger: &mut Ledger, idx: i32, type_tag: &str) -> (res:
        Result<Handle, PeekError>)
        requires
            old(ctx).wf(),
            old(ctx).valid(idx as int),
            old(ctx).has_room(1),
            wrapped(old(ctx).slot(idx as int), type_tag@) matches Ok(ptr) ==> old(ledger).count(ptr)
                < usize::MAX,
        ensures
            final(ctx).wf(),
            final(ctx)@ == old(ctx)@,
            final(ctx).ambient() == old(ctx).ambient(),
            match wrapped(old(ctx).slot(idx as int), type_tag@) {
                Ok(ptr) => {
                    &&& res matches Ok(handle)
                    &&& handle.ptr == ptr
                    &&& handle.type_tag@ == type_tag@
                    &&& final(ledger).count(ptr) == count_after(
                        old(ledger).count(ptr),
                        HandleOp::Peek,
                    )
                    &&& forall|other: int|
                        other != ptr ==> final(ledger).count(other) == old(ledger).count(other)
                },
                Err(f) => {
                    &&& res matches Err(e)
                    &&& e@ == f
                    &&& forall|other: int| final(ledger).count(other) == old(ledger).count(other)
                },
            },
    {
        match peek_rc(ctx, idx, type_tag, true) {
            Ok(read) => {
                if read.retain {
                    ledger.retain(read.ptr);
                }
                Ok(Handle { ptr: read.ptr, type_tag: type_tag.to_owned() })
            },
            Err(e) => Err(e),
        }
    }

    /// Reads the wrapper at the top of the stack as a handle of type
    /// `type_tag` and, where that succeeds, removes it. The handle read
    /// takes over the wrapper's ownership: the strong count stays as it is.
    pub fn pop(ctx: &mut Context, type_tag: &str) -> (res: Result<Handle, PeekError>)
        requires
            old(ctx).wf(),
            old(ctx)@.len() > 0,
            old(ctx).has_room(1),
        ensures
            final(ctx).wf(),
            final(ctx).ambient() == old(ctx).ambient(),
            match wrapped(old(ctx)@.last(), type_tag@) {
                Ok(ptr) => {
                    &&& res matches Ok(handle)
                    &&& handle.ptr == ptr
                    &&& handle.type_tag@ == type_tag@
                    &&& final(ctx)@ == old(ctx)@.drop_last()
                },
                Err(f) => res matches Err(e) && e@ == f && final(ctx)@ == old(ctx)@,
            },
    {
        match peek_rc(ctx, -1, type_tag, false) {
            Ok(read) => {
                ctx.pop();
                Ok(Handle { ptr: read.ptr, type_tag: type_tag.to_owned() })
            },
            Err(e) => Err(e),
        }
    }
}

/// A wrapper reads back as the allocation it was made of, under the type
/// name it was made with, and under no other.
pub proof fn lemma_wrapper_reads_back(ptr: int, type_tag: Seq<char>, asked: Seq<char>)
    ensures
        wrapped(wrapper(ptr, type_tag), type_tag) == Ok::<int, PeekFault>(ptr),
        asked != type_tag ==> wrapped(wrapper(ptr, type_tag), asked) == Err::<int, PeekFault>(
            PeekFault::Type,
        ),
{
    lemma_keys_differ();
    let first = bind_key(Seq::empty(), rc_key(), SlotView::Pointer(ptr));
    let props = bind_key(first, type_key(), SlotView::Text(type_tag));
    lemma_find_key(Seq::empty(), rc_key());
    assert(first =~= seq![(rc_key(), SlotView::Pointer(ptr))]);
    lemma_find_key(first, type_key());
    assert(find_key(first, type_key()) == 1);
    assert(props =~= seq![
        (rc_key(), SlotView::Pointer(ptr)),
        (type_key(), SlotView::Text(type_tag)),
    ]);
    lemma_find_key(props, type_key());
    lemma_find_key(props, rc_key());
    assert(props[1].0 == type_key());
    assert(props[0].0 == rc_key());
    assert(find_key(props, type_key()) == 1);
    assert(find_key(props, rc_key()) == 0);
}

/// The two keys of a wrapper are different.
pub proof fn lemma_keys_differ()
    ensures
        rc_key() != type_key(),
{
    reveal_strlit("__rc");
    reveal_strlit("__type");
    vstd::utf8::encode_utf8_decode_utf8("__rc"@);
    vstd::utf8::encode_utf8_decode_utf8("__type"@);
    assert("__rc"@.len() != "__type"@.len());
}

} // verus!
