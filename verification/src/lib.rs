//! The value-marshalling protocol of a binding to the Duktape script engine.
//!
//! The engine is a stack machine: native code and scripts exchange values
//! through a stack of slots. This library holds the protocol by which native
//! values cross that boundary, and proves it:
//!
//! - [`context`] is the stack machine adapter: a value stack with typed
//!   push, get and put primitives, each specified by its effect on the stack.
//! - [`value`] is the value protocol: the producer and consumer
//!   capabilities, and their implementations for scalars, optional values
//!   and byte buffers.
//! - [`serialize`] is the structured bridge, which writes and reads values
//!   of the structured data model of [`value_model`].
//! - [`handle`] is the ownership bridge for reference-counted native objects.
//! - [`function`] and [`derive`] hold what the code generators decide: the
//!   trampoline of a native function, and the storage of a record's fields.
//! - [`laws`] states what holds of every value: round trips, the exclusion
//!   of hidden fields, the merging of the two absent values.
//!
//! The stack of a [`Context`] lives in memory of its own. A binding to a
//! running engine copies slots between such a stack and the engine's, and
//! leaves every decision to this library.

use vstd::prelude::*;

pub mod context;
pub mod derive;
pub mod function;
pub mod handle;
pub mod laws;
pub mod names;
pub mod serialize;
pub mod slot;
pub mod value;
pub mod value_model;

pub use crate::context::Context;
pub use crate::function::Function;
pub use crate::value::{PeekValue, PushValue};

verus! {

/// A failure of the engine, with the text the engine rendered for it.
#[derive(Debug)]
pub enum Error {
    Message(String),
}

impl Error {
    /// The message, as a sequence of characters.
    pub open spec fn text(&self) -> Seq<char> {
        match self {
            Error::Message(m) => m@,
        }
    }

    /// A copy of the message.
    pub fn message(&self) -> (m: String)
        ensures
            m@ == self.text(),
    {
        match self {
            Error::Message(m) => m.clone(),
        }
    }
}

/// Compile the source as an expression to evaluate.
pub const DUK_COMPILE_EVAL: u32 = 1 << 3;

/// Catch what the script throws instead of unwinding.
pub const DUK_COMPILE_SAFE: u32 = 1 << 7;

/// The source is given by pointer and length, not on the stack.
pub const DUK_COMPILE_NOSOURCE: u32 = 1 << 9;

/// There is no file name on the stack.
pub const DUK_COMPILE_NOFILENAME: u32 = 1 << 11;

/// The flags under which a source string is compiled and run: as an
/// expression, from memory, without a file name, catching what it throws.
pub fn eval_flags() -> (flags: u32)
    ensures
        flags == DUK_COMPILE_EVAL | DUK_COMPILE_NOSOURCE | DUK_COMPILE_NOFILENAME
            | DUK_COMPILE_SAFE,
        flags == 0xa88,
{
    let flags = DUK_COMPILE_EVAL | DUK_COMPILE_NOSOURCE | DUK_COMPILE_NOFILENAME
        | DUK_COMPILE_SAFE;
    assert((1u32 << 3) | (1u32 << 9) | (1u32 << 11) | (1u32 << 7) == 0xa88u32) by (bit_vector);
    flags
}

impl Context {
    /// What an evaluation amounts to once the engine has run the script
    /// and left its outcome on top of the stack. A return code other than
    /// zero is the failure that carries `rendered`, the text the engine
    /// rendered for what the script threw. With a return code of zero the
    /// value on top of the stack is read as the result, and a value that
    /// cannot be read is the failure that carries why. The stack stays as
    /// it is.
    pub fn eval_result<T: PeekValue>(&mut self, rv: i32, rendered: &str) -> (res: Result<T, Error>)
        requires
            old(self).wf(),
            old(self)@.len() > 0,
            old(self).has_room(T::room() as int),
        ensures
            final(self).wf(),
            final(self)@ == old(self)@,
            final(self).ambient() == old(self).ambient(),
            rv != 0 ==> (res matches Err(e) && e.text() == rendered@),
            rv == 0 ==> match res {
                Ok(v) => T::reads(old(self)@.last(), Ok(v)),
                Err(e) => exists|why: crate::value::PeekError|
                    T::reads(old(self)@.last(), Err(why)) && e.text() == why@.text(),
            },
    {
        if rv != 0 {
            return Err(Error::Message(rendered.to_owned()));
        }
        match self.peek::<T>(-1) {
            Ok(v) => Ok(v),
            Err(why) => Err(Error::Message(why.message())),
        }
    }
}

} // verus!
