//! Registration and dispatch of native functions: what the attribute on a
//! function decides, and what a trampoline does when the engine calls it.

use crate::context::{Ambient, Context, STACK_LIMIT};
use crate::names::{marker_name, pascal_case_of, register_name_from};
use crate::serialize::{decoding, depth, encoding, kind_depth, Error};
use crate::slot::{bind_key, Slot, SlotView};
use crate::value::{PushValue, SerdeValue};
use crate::value_model::{view_values, Kind, KindView, Value, ValueView};
use vstd::prelude::*;
use vstd::utf8::encode_utf8;

verus! {

/// The arity that tells the engine to pass on any number of arguments.
pub const VARIABLE_ARITY: i32 = -1;

/// The code by which a trampoline reports that its arguments were refused.
pub const REJECTED: i32 = -1;

/// One `name` or `name = "value"` entry of the attribute.
#[derive(Debug)]
pub struct KV {
    pub name: String,
    pub value: Option<String>,
}

/// What the attribute asks for.
#[derive(Debug)]
pub struct Args {
    /// The type of the receiver, for a method.
    pub this: Option<String>,
    /// Whether the function takes any number of arguments.
    pub vararg: bool,
}

/// Why an attribute or a signature cannot be taken.
#[derive(Debug)]
pub enum MacroError {
    /// An entry that is neither `this` nor `vararg`.
    UnknownAttribute(String),
    /// `this` without a value.
    MissingValue,
    /// A receiver taken by value.
    SelfNotSupported,
    /// A reference in another place than the first parameter.
    UnsupportedReference,
    /// A parameter whose type is neither a path nor a reference.
    Unsupported,
    /// A return type that is neither a path, an array nor a reference.
    UnsupportedReturnType,
    /// A method whose attribute names no receiver type.
    MissingThis,
}

/// The mathematical value of a [`MacroError`].
pub ghost enum MacroFault {
    UnknownAttribute(Seq<char>),
    MissingValue,
    SelfNotSupported,
    UnsupportedReference,
    Unsupported,
    UnsupportedReturnType,
    MissingThis,
}

impl MacroFault {
    /// The fault as a line of text.
    pub open spec fn text(self) -> Seq<char> {
        match self {
            MacroFault::UnknownAttribute(name) => "unknown attribute "@ + name,
            MacroFault::MissingValue => "missing value"@,
            MacroFault::SelfNotSupported => "self not supported"@,
            MacroFault::UnsupportedReference => "unsupported reference"@,
            MacroFault::Unsupported => "unsupported"@,
            MacroFault::UnsupportedReturnType => "unsupported return type"@,
            MacroFault::MissingThis => "missing receiver type"@,
        }
    }
}

impl MacroError {
    /// The mathematical value.
    pub open spec fn view(&self) -> MacroFault {
        match self {
            MacroError::UnknownAttribute(name) => MacroFault::UnknownAttribute(name@),
            MacroError::MissingValue => MacroFault::MissingValue,
            MacroError::SelfNotSupported => MacroFault::SelfNotSupported,
            MacroError::UnsupportedReference => MacroFault::UnsupportedReference,
            MacroError::Unsupported => MacroFault::Unsupported,
            MacroError::UnsupportedReturnType => MacroFault::UnsupportedReturnType,
            MacroError::MissingThis => MacroFault::MissingThis,
        }
    }

    /// The failure as a line of text.
    pub fn message(&self) -> (m: String)
        ensures
            m@ == self@.text(),
    {
        match self {
            MacroError::UnknownAttribute(name) => {
                let mut m = "unknown attribute ".to_owned();
                m.append(name.as_str());
                m
            },
            MacroError::MissingValue => "missing value".to_owned(),
            MacroError::SelfNotSupported => "self not supported".to_owned(),
            MacroError::UnsupportedReference => "unsupported reference".to_owned(),
            MacroError::Unsupported => "unsupported".to_owned(),
            MacroError::UnsupportedReturnType => "unsupported return type".to_owned(),
            MacroError::MissingThis => "missing receiver type".to_owned(),
        }
    }
}

/// What the first `n` entries ask for: the receiver type of the last `this`
/// and whether `vararg` occurs, or the fault of the first entry that cannot
/// be taken.
pub open spec fn parsed(pairs: Seq<KV>, n: int) -> Result<(Option<Seq<char>>, bool), MacroFault>
    decreases n,
{
    if n <= 0 || n > pairs.len() {
        Ok((None, false))
    } else {
        match parsed(pairs, n - 1) {
            Err(f) => Err(f),
            Ok((this, vararg)) => {
                let entry = pairs[n - 1];
                if entry.name@ == "this"@ {
                    match entry.value {
                        Some(v) => Ok((Some(v@), vararg)),
                        None => Err(MacroFault::MissingValue),
                    }
                } else if entry.name@ == "vararg"@ {
                    Ok((this, true))
                } else {
                    Err(MacroFault::UnknownAttribute(entry.name@))
                }
            },
        }
    }
}

/// Once an entry is refused, later entries change nothing.
pub proof fn lemma_parsed_stays(pairs: Seq<KV>, i: int, n: int)
    requires
        0 <= i <= n <= pairs.len(),
        parsed(pairs, i) is Err,
    ensures
        parsed(pairs, n) == parsed(pairs, i),
    decreases n,
{
    if i < n {
        lemma_parsed_stays(pairs, i, n - 1);
    }
}

impl Args {
    /// The receiver type, as a sequence of characters.
    pub open spec fn this_view(&self) -> Option<Seq<char>> {
        match self.this {
            Some(t) => Some(t@),
            None => None,
        }
    }

    /// Whether every entry can be taken: each is `this` with a value, or
    /// `vararg`.
    pub open spec fn known(pairs: Seq<KV>) -> bool {
        parsed(pairs, pairs.len() as int) is Ok
    }

    /// Looks for an entry that cannot be taken: `this` without a value, or
    /// an entry that is neither `this` nor `vararg`. The first such entry
    /// gives the failure.
    pub fn check(pairs: &Vec<KV>) -> (res: Result<(), MacroError>)
        ensures
            match parsed(pairs@, pairs.len() as int) {
                Ok(_) => res is Ok,
                Err(f) => res matches Err(e) && e@ == f,
            },
    {
        match Args::scan(pairs) {
            Ok(_) => Ok(()),
            Err(e) => Err(e),
        }
    }

    /// Takes the entries of the attribute in order: `this = "Type"` names
    /// the receiver type, and `vararg` asks for variable arity. Every entry
    /// must be one that can be taken; [`Args::check`] tells.
    pub fn parse(pairs: &Vec<KV>) -> (res: Result<Args, MacroError>)
        requires
            Args::known(pairs@),
        ensures
            res matches Ok(args) && Ok::<(Option<Seq<char>>, bool), MacroFault>(
                (args.this_view(), args.vararg),
            ) == parsed(pairs@, pairs.len() as int),
    {
        Args::scan(pairs)
    }

    /// Goes through the entries in order and stops at the first that cannot
    /// be taken.
    fn scan(pairs: &Vec<KV>) -> (res: Result<Args, MacroError>)
        ensures
            match parsed(pairs@, pairs.len() as int) {
                Ok((this, vararg)) => res matches Ok(args) && args.this_view() == this
                    && args.vararg == vararg,
                Err(f) => res matches Err(e) && e@ == f,
            },
    {
        let word_this = "this".to_owned();
        let word_vararg = "vararg".to_owned();
        let mut this: Option<String> = None;
        let mut vararg = false;
        let mut i: usize = 0;
        while i < pairs.len()
            invariant
                i <= pairs.len(),
                word_this@ == "this"@,
                word_vararg@ == "vararg"@,
                parsed(pairs@, i as int) == Ok::<(Option<Seq<char>>, bool), MacroFault>(
                    (
                        match this {
                            Some(t) => Some(t@),
                            None => None,
                        },
                        vararg,
                    ),
                ),
            decreases pairs.len() - i,
        {
            let entry = &pairs[i];
            if entry.name == word_this {
                match &entry.value {
                    Some(v) => {
                        this = Some(v.clone());
                    },
                    None => {
                        proof {
                            lemma_parsed_stays(pairs@, i as int + 1, pairs.len() as int);
                        }
                        return Err(MacroError::MissingValue);
                    },
                }
            } else if entry.name == word_vararg {
                vararg = true;
            } else {
                proof {
                    lemma_parsed_stays(pairs@, i as int + 1, pairs.len() as int);
                }
                return Err(MacroError::UnknownAttribute(entry.name.clone()));
            }
            i += 1;
        }
        Ok(Args { this, vararg })
    }
}

/// The form of one parameter of a signature.
#[derive(Clone, Copy, Debug, PartialEq, Eq, Structural)]
pub enum ParamInput {
    /// `self`, by reference or by value.
    Receiver { by_reference: bool },
    /// A parameter whose type is a path: an argument.
    Path,
    /// A parameter whose type is a reference.
    Reference,
    /// A parameter of any other type.
    Other,
}

/// The form of the return type of a signature.
#[derive(Clone, Copy, Debug, PartialEq, Eq, Structural)]
pub enum ReturnInput {
    /// No return type.
    Default,
    Path,
    Array,
    Reference,
    /// Any other type.
    Other,
}

/// A signature as it is declared.
#[derive(Debug)]
pub struct SignatureInput {
    pub name: String,
    pub params: Vec<ParamInput>,
    pub output: ReturnInput,
}

/// The number of values a function with this return type leaves as its
/// result.
pub open spec fn return_count(output: ReturnInput) -> Result<i32, MacroFault> {
    match output {
        ReturnInput::Default => Ok(0i32),
        ReturnInput::Path => Ok(1i32),
        ReturnInput::Array => Ok(1i32),
        ReturnInput::Reference => Ok(1i32),
        ReturnInput::Other => Err(MacroFault::UnsupportedReturnType),
    }
}

/// What the first `n` parameters amount to: whether there is a receiver,
/// and the positions of the arguments; or the fault of the first parameter
/// that cannot be taken. A reference in the first place is the stack
/// machine handed to the function and no argument.
pub open spec fn scanned(params: Seq<ParamInput>, n: int) -> Result<(bool, Seq<usize>), MacroFault>
    decreases n,
{
    if n <= 0 || n > params.len() {
        Ok((false, Seq::empty()))
    } else {
        match scanned(params, n - 1) {
            Err(f) => Err(f),
            Ok((method, args)) => match params[n - 1] {
                ParamInput::Receiver { by_reference } => if by_reference {
                    Ok((true, args))
                } else {
                    Err(MacroFault::SelfNotSupported)
                },
                ParamInput::Path => Ok((method, args.push((n - 1) as usize))),
                ParamInput::Reference => if n - 1 > 0 {
                    Err(MacroFault::UnsupportedReference)
                } else {
                    Ok((method, args))
                },
                ParamInput::Other => Err(MacroFault::Unsupported),
            },
        }
    }
}

/// Once a parameter is refused, later parameters change nothing.
pub proof fn lemma_scanned_stays(params: Seq<ParamInput>, i: int, n: int)
    requires
        0 <= i <= n <= params.len(),
        scanned(params, i) is Err,
    ensures
        scanned(params, n) == scanned(params, i),
    decreases n,
{
    if i < n {
        lemma_scanned_stays(params, i, n - 1);
    }
}

/// There are at most as many arguments as parameters.
pub proof fn lemma_scanned_len(params: Seq<ParamInput>, n: int)
    requires
        0 <= n <= params.len(),
        scanned(params, n) is Ok,
    ensures
        scanned(params, n)->Ok_0.1.len() <= n,
    decreases n,
{
    if n > 0 {
        lemma_scanned_len(params, n - 1);
    }
}

/// The outcome of planning a trampoline: the fault of the return type comes
/// before that of a parameter, and a method needs a receiver type.
pub open spec fn planned(this: Option<Seq<char>>, sig: SignatureInput) -> Result<
    (i32, bool, Seq<usize>),
    MacroFault,
> {
    match return_count(sig.output) {
        Err(f) => Err(f),
        Ok(count) => match scanned(sig.params@, sig.params.len() as int) {
            Err(f) => Err(f),
            Ok((method, args)) => if method && this is None {
                Err(MacroFault::MissingThis)
            } else {
                Ok((count, method, args))
            },
        },
    }
}

/// What is generated for one function: the description of its trampoline.
#[derive(Debug)]
pub struct Trampoline {
    /// The name of the marker type.
    pub struct_name: String,
    pub fn_name: String,
    /// The number of values the trampoline leaves as its result: 0 or 1.
    pub return_count: i32,
    pub is_method: bool,
    /// The positions, among the parameters, of the arguments.
    pub args: Vec<usize>,
    /// The arity the function is registered with.
    pub arity: i32,
    /// The number of arguments the trampoline insists on.
    pub min_args: i32,
    /// The type of the receiver, for a method.
    pub this: Option<String>,
    /// The name of the function that registers a method.
    pub register_fn: Option<String>,
}

/// The offset from the top of the stack at which argument `i` of `count`
/// sits: arguments are in call order, the last one nearest the top.
pub open spec fn arg_offset(count: int, i: int) -> int {
    i - count
}

impl Trampoline {
    /// Whether the trampoline is the one planned for the signature `sig`
    /// with `count` results, `positions` as its arguments, and a receiver
    /// of type `this` where it is a method.
    pub open spec fn follows(
        &self,
        this: Option<Seq<char>>,
        vararg: bool,
        sig: SignatureInput,
        count: i32,
        method: bool,
        positions: Seq<usize>,
    ) -> bool {
        &&& self.struct_name@ == pascal_case_of(sig.name@)
        &&& self.fn_name@ == sig.name@
        &&& self.return_count == count
        &&& self.is_method == method
        &&& self.args@ == positions
        &&& self.min_args == positions.len()
        &&& self.arity == if vararg {
            VARIABLE_ARITY as int
        } else {
            positions.len() as int
        }
        &&& method ==> (self.this matches Some(name) && Some(name@) == this)
        &&& !method ==> self.this is None
        &&& method ==> (self.register_fn matches Some(name) && name@ == "register_"@ + sig.name@)
        &&& !method ==> self.register_fn is None
    }

    /// Plans the trampoline of the function with signature `sig` under the
    /// attribute `args`.
    pub fn plan(args: &Args, sig: &SignatureInput) -> (res: Result<Trampoline, MacroError>)
        requires
            sig.params.len() <= i32::MAX,
        ensures
            match planned(args.this_view(), *sig) {
                Err(f) => res matches Err(e) && e@ == f,
                Ok((count, method, positions)) => res matches Ok(t) && t.follows(
                    args.this_view(),
                    args.vararg,
                    *sig,
                    count,
                    method,
                    positions,
                ),
            },
    {
        let returned: i32 = match sig.output {
            ReturnInput::Default => 0,
            ReturnInput::Path => 1,
            ReturnInput::Array => 1,
            ReturnInput::Reference => 1,
            ReturnInput::Other => {
                return Err(MacroError::UnsupportedReturnType);
            },
        };
        let mut is_method = false;
        let mut positions: Vec<usize> = Vec::new();
        let mut i: usize = 0;
        while i < sig.params.len()
            invariant
                i <= sig.params.len(),
                return_count(sig.output) == Ok::<i32, MacroFault>(returned),
                scanned(sig.params@, i as int) == Ok::<(bool, Seq<usize>), MacroFault>(
                    (is_method, positions@),
                ),
            decreases sig.params.len() - i,
        {
            match sig.params[i] {
                ParamInput::Receiver { by_reference } => {
                    if !by_reference {
                        proof {
                            assert(scanned(sig.params@, i as int + 1) == Err::<
                                (bool, Seq<usize>),
                                MacroFault,
                            >(MacroFault::SelfNotSupported));
                            lemma_scanned_stays(sig.params@, i as int + 1, sig.params.len() as int);
                        }
                        return Err(MacroError::SelfNotSupported);
                    }
                    is_method = true;
                },
                ParamInput::Path => {
                    positions.push(i);
                },
                ParamInput::Reference => {
                    if i > 0 {
                        proof {
                            assert(scanned(sig.params@, i as int + 1) == Err::<
                                (bool, Seq<usize>),
                                MacroFault,
                            >(MacroFault::UnsupportedReference));
                            lemma_scanned_stays(sig.params@, i as int + 1, sig.params.len() as int);
                        }
                        return Err(MacroError::UnsupportedReference);
                    }
                },
                ParamInput::Other => {
                    proof {
                        assert(scanned(sig.params@, i as int + 1) == Err::<
                            (bool, Seq<usize>),
                            MacroFault,
                        >(MacroFault::Unsupported));
                        lemma_scanned_stays(sig.params@, i as int + 1, sig.params.len() as int);
                    }
                    return Err(MacroError::Unsupported);
                },
            }
            i += 1;
        }
        proof {
            lemma_scanned_len(sig.params@, sig.params.len() as int);
        }
        let count = positions.len() as i32;
        let arity = if args.vararg {
            VARIABLE_ARITY
        } else {
            count
        };
        let (this, register_fn) = if is_method {
            match &args.this {
                Some(name) => (Some(name.clone()), Some(register_name_from(sig.name.as_str()))),
                None => {
                    return Err(MacroError::MissingThis);
                },
            }
        } else {
            (None, None)
        };
        Ok(
            Trampoline {
                struct_name: marker_name(sig.name.as_str()),
                fn_name: sig.name.clone(),
                return_count: returned,
                is_method,
                args: positions,
                arity,
                min_args: count,
                this,
                register_fn,
            },
        )
    }

    /// Whether a stack of `stack_len` slots holds enough values for a call:
    /// at least as many as the function has arguments.
    pub fn validates(&self, stack_len: i32) -> (r: bool)
        ensures
            r == (stack_len >= self.min_args),
    {
        stack_len >= self.min_args
    }

    /// The offset from the top of the stack at which argument `i` is read.
    pub fn offset(&self, i: usize) -> (at: i32)
        requires
            i < self.args.len(),
            self.args.len() <= i32::MAX,
        ensures
            at == arg_offset(self.args.len() as int, i as int),
            at < 0,
    {
        i as i32 - self.args.len() as i32
    }
}

/// What a trampoline reads and writes at run time: the kinds of its
/// arguments, of its receiver if it is a method, and whether it returns a
/// value.
#[derive(Debug)]
pub struct Descriptor {
    pub arg_kinds: Vec<Kind>,
    pub this_kind: Option<Kind>,
    pub returns: bool,
}

/// How a call came in.
#[derive(Debug)]
pub enum Entry {
    /// There were too few arguments; the code to return to the engine.
    Rejected(i32),
    /// An argument or the receiver could not be read; the failure to raise
    /// in the engine, with its message.
    Failed(crate::value::PeekError),
    /// The arguments were read and removed from the stack.
    Ready { this: Option<Value>, args: Vec<Value> },
}

/// The views of a vector of kinds, in order.
pub open spec fn view_kinds(kinds: &Vec<Kind>) -> Seq<KindView> {
    Seq::new(kinds.len() as nat, |i: int| kinds[i]@)
}

/// The first `n` arguments as read from the top `kinds.len()` slots of
/// `stack`, each under its kind, or the fault of the first of them that
/// cannot be read.
pub open spec fn decoded_args(stack: Seq<SlotView>, kinds: Seq<KindView>, n: int) -> Result<
    Seq<ValueView>,
    crate::serialize::Fault,
>
    decreases n,
{
    if n <= 0 || n > kinds.len() {
        Ok(Seq::empty())
    } else {
        match decoded_args(stack, kinds, n - 1) {
            Err(f) => Err(f),
            Ok(read) => match decoding(stack[stack.len() - kinds.len() + n - 1], kinds[n - 1]) {
                Ok(v) => Ok(read.push(v)),
                Err(f) => Err(f),
            },
        }
    }
}

/// Once an argument cannot be read, later arguments change nothing.
pub proof fn lemma_decoded_args_stays(stack: Seq<SlotView>, kinds: Seq<KindView>, i: int, n: int)
    requires
        0 <= i <= n <= kinds.len(),
        decoded_args(stack, kinds, i) is Err,
    ensures
        decoded_args(stack, kinds, n) == decoded_args(stack, kinds, i),
    decreases n,
{
    if i < n {
        lemma_decoded_args_stays(stack, kinds, i, n - 1);
    }
}

/// The largest number of free slots that reading one of the first `n`
/// kinds takes.
pub open spec fn deepest_arg(kinds: Seq<KindView>, n: int) -> nat
    decreases n,
{
    if n <= 0 || n > kinds.len() {
        0
    } else {
        let rest = deepest_arg(kinds, n - 1);
        let last = kind_depth(kinds[n - 1]);
        if last > rest {
            last
        } else {
            rest
        }
    }
}

/// Every one of the first `n` kinds takes at most as much as the deepest.
pub proof fn lemma_deepest_arg(kinds: Seq<KindView>, n: int, i: int)
    requires
        0 <= i < n <= kinds.len(),
    ensures
        kind_depth(kinds[i]) <= deepest_arg(kinds, n),
    decreases n,
{
    if i < n - 1 {
        lemma_deepest_arg(kinds, n - 1, i);
    }
}

impl Descriptor {
    /// The number of free slots that entering a call takes at most.
    pub open spec fn room(&self) -> nat {
        let args = deepest_arg(view_kinds(&self.arg_kinds), self.arg_kinds.len() as int);
        match self.this_kind {
            Some(kind) => if 1 + kind_depth(kind@) > args {
                1 + kind_depth(kind@)
            } else {
                args
            },
            None => args,
        }
    }

    /// The receiver as read from the ambient state, where there is one to
    /// read.
    pub open spec fn receiver(&self, ambient: Ambient) -> Option<Result<ValueView, crate::serialize::Fault>> {
        match self.this_kind {
            Some(kind) => Some(decoding(ambient.this, kind@)),
            None => None,
        }
    }

    /// Whether a call on `stack` under `ambient` is let in: there are
    /// enough arguments, and each argument and the receiver can be read.
    pub open spec fn admits(&self, stack: Seq<SlotView>, ambient: Ambient) -> bool {
        &&& stack.len() >= self.arg_kinds.len()
        &&& decoded_args(stack, view_kinds(&self.arg_kinds), self.arg_kinds.len() as int) is Ok
        &&& !(self.receiver(ambient) matches Some(Err(_)))
    }

    /// The fault that stops a call on `stack` under `ambient` which has
    /// enough arguments: that of the first argument that cannot be read,
    /// else that of the receiver.
    pub open spec fn fault(&self, stack: Seq<SlotView>, ambient: Ambient) -> Option<
        crate::serialize::Fault,
    > {
        match decoded_args(stack, view_kinds(&self.arg_kinds), self.arg_kinds.len() as int) {
            Err(f) => Some(f),
            Ok(_) => match self.receiver(ambient) {
                Some(Err(f)) => Some(f),
                _ => None,
            },
        }
    }

    /// The first step of a trampoline. Where the stack holds fewer values
    /// than the function has arguments, the call is rejected with the arity
    /// code. Where an argument or the receiver cannot be read, the call
    /// fails with the failure of the first that cannot, which carries its
    /// message. In both cases the stack stays as it was. Otherwise the
    /// arguments are read in call order, the last one nearest the top, and
    /// removed from the stack.
    pub fn enter(&self, ctx: &mut Context) -> (entry: Entry)
        requires
            old(ctx).wf(),
            old(ctx).has_room(self.room() as int),
        ensures
            final(ctx).wf(),
            final(ctx).ambient() == old(ctx).ambient(),
            old(ctx)@.len() < self.arg_kinds.len() ==> entry == Entry::Rejected(REJECTED)
                && final(ctx)@ == old(ctx)@,
            old(ctx)@.len() >= self.arg_kinds.len() ==> match self.fault(
                old(ctx)@,
                old(ctx).ambient(),
            ) {
                Some(f) => entry matches Entry::Failed(e) && e@ == crate::value::PeekFault::Serde(
                    f.text(),
                ) && final(ctx)@ == old(ctx)@,
                None => {
                    &&& entry matches Entry::Ready { this, args }
                    &&& final(ctx)@ == old(ctx)@.subrange(
                        0,
                        old(ctx)@.len() - self.arg_kinds.len(),
                    )
                    &&& Ok::<Seq<ValueView>, crate::serialize::Fault>(view_values(&args))
                        == decoded_args(
                        old(ctx)@,
                        view_kinds(&self.arg_kinds),
                        self.arg_kinds.len() as int,
                    )
                    &&& match self.receiver(old(ctx).ambient()) {
                        Some(r) => this matches Some(v) && r == Ok::<
                            ValueView,
                            crate::serialize::Fault,
                        >(v@),
                        None => this is None,
                    }
                },
            },
    {
        let ghost stack = ctx@;
        let ghost kinds = view_kinds(&self.arg_kinds);
        let count = self.arg_kinds.len();
        let n = ctx.stack_len();
        if (n as usize) < count {
            return Entry::Rejected(REJECTED);
        }
        let mut args: Vec<Value> = Vec::new();
        assert(view_values(&args) =~= Seq::<ValueView>::empty());
        let mut i: usize = 0;
        while i < count
            invariant
                i <= count,
                count == self.arg_kinds.len(),
                count <= n,
                n == stack.len(),
                kinds == view_kinds(&self.arg_kinds),
                ctx.wf(),
                ctx@ == stack,
                stack == old(ctx)@,
                ctx.ambient() == old(ctx).ambient(),
                ctx.has_room(self.room() as int),
                decoded_args(stack, kinds, i as int) == Ok::<
                    Seq<ValueView>,
                    crate::serialize::Fault,
                >(view_values(&args)),
            decreases count - i,
        {
            proof {
                lemma_deepest_arg(kinds, count as int, i as int);
            }
            let at: i32 = i as i32 - count as i32;
            let kind = &self.arg_kinds[i];
            assert(kind@ == kinds[i as int]);
            match SerdeValue::peek_as(ctx, at, kind) {
                Ok(value) => {
                    let ghost so_far = view_values(&args);
                    args.push(value.0);
                    assert(view_values(&args) =~= so_far.push(value.0@));
                },
                Err(e) => {
                    proof {
                        assert(decoded_args(stack, kinds, i as int + 1) is Err);
                        lemma_decoded_args_stays(stack, kinds, i as int + 1, count as int);
                    }
                    return Entry::Failed(e);
                },
            }
            i += 1;
        }
        let this = match &self.this_kind {
            Some(kind) => {
                ctx.push_this();
                let read = SerdeValue::peek_as(ctx, -1, kind);
                ctx.pop();
                assert(ctx@ =~= stack);
                match read {
                    Ok(value) => Some(value.0),
                    Err(e) => {
                        return Entry::Failed(e);
                    },
                }
            },
            None => None,
        };
        ctx.pop_n(count as i32);
        Entry::Ready { this, args }
    }

    /// The last step of a trampoline: produces the result, if the function
    /// returns one, and gives the number of values left as the result.
    pub fn leave(&self, ctx: &mut Context, result: Option<&Value>) -> (count: i32)
        requires
            old(ctx).wf(),
            self.returns ==> (result matches Some(v) && encoding(v@) is Some && old(ctx).has_room(
                depth(v@) as int,
            )),
        ensures
            final(ctx).wf(),
            final(ctx).ambient() == old(ctx).ambient(),
            self.returns ==> count == 1 && final(ctx)@ == old(ctx)@.push(
                encoding(result.unwrap()@).unwrap(),
            ),
            !self.returns ==> count == 0 && final(ctx)@ == old(ctx)@,
    {
        if self.returns {
            match result {
                Some(value) => {
                    proof {
                        lemma_depth_positive(value@);
                    }
                    let _ = SerdeValue(value).push_to(ctx);
                },
                None => {},
            }
            1
        } else {
            0
        }
    }
}

/// Reads argument `i` of `count` as a value of type `T`: the arguments are
/// the top `count` slots, in call order. The stack stays as it is.
pub fn read_argument<T: crate::value::PeekValue>(ctx: &mut Context, count: i32, i: i32) -> (res:
    Result<T, crate::value::PeekError>)
    requires
        old(ctx).wf(),
        0 <= i < count <= old(ctx)@.len(),
        old(ctx).has_room(T::room() as int),
    ensures
        final(ctx).wf(),
        final(ctx)@ == old(ctx)@,
        final(ctx).ambient() == old(ctx).ambient(),
        T::reads(old(ctx)@[old(ctx)@.len() + arg_offset(count as int, i as int)], res),
{
    T::peek_at(ctx, i - count)
}

/// Reads the receiver of the call in progress as a value of type `T`. The
/// stack stays as it is.
pub fn read_receiver<T: crate::value::PeekValue>(ctx: &mut Context) -> (res: Result<
    T,
    crate::value::PeekError,
>)
    requires
        old(ctx).wf(),
        old(ctx).has_room(1 + T::room() as int),
    ensures
        final(ctx).wf(),
        final(ctx)@ == old(ctx)@,
        final(ctx).ambient() == old(ctx).ambient(),
        T::reads(old(ctx).ambient().this, res),
{
    let ghost stack = ctx@;
    ctx.push_this();
    let res = T::peek_at(ctx, -1);
    ctx.pop();
    assert(ctx@ =~= stack);
    res
}

/// Produces the result of a function and gives the number of values left
/// as the result: one.
pub fn return_value<T: PushValue>(ctx: &mut Context, value: T) -> (count: i32)
    requires
        old(ctx).wf(),
        value.accepted(),
        old(ctx).has_room(value.room() as int),
        old(ctx).has_room(1),
    ensures
        final(ctx).wf(),
        final(ctx)@ == old(ctx)@.push(value.slot()),
        final(ctx).ambient() == old(ctx).ambient(),
        count == 1,
{
    let _ = value.push_to(ctx);
    1
}

/// Writing a value takes at least one free slot.
pub proof fn lemma_depth_positive(v: ValueView)
    ensures
        depth(v) >= 1,
    decreases v,
{
    match v {
        ValueView::Present(inner) => lemma_depth_positive(*inner),
        ValueView::Newtype(inner) => lemma_depth_positive(*inner),
        _ => {},
    }
}

/// A native function as the engine sees it: an entry point and the arity it
/// is registered with.
pub trait Function {
    /// The arity: an exact count, or [`VARIABLE_ARITY`]. It is fixed for
    /// each function.
    open spec fn nargs(&self) -> int {
        arbitrary()
    }

    /// The identity of the entry point. It is fixed for each function.
    open spec fn address(&self) -> int {
        arbitrary()
    }

    /// Whether running the entry point on a stack machine as it is in
    /// `before` may leave it as it is in `after` and give the return code
    /// `rv`. A function that states nothing of its own may do anything.
    open spec fn runs(&self, before: &Context, after: &Context, rv: int) -> bool {
        true
    }

    /// The arity the function is registered with.
    fn args(&self) -> (n: i32)
        ensures
            n == self.nargs(),
    ;

    /// The identity of the entry point.
    fn ptr(&self) -> (entry: u64)
        ensures
            entry == self.address(),
    ;

    /// Runs the entry point on `ctx` and gives its return code: negative
    /// where the call failed, else the number of values left as the result.
    fn call(&self, ctx: &mut Context) -> (rv: i32)
        requires
            old(ctx).wf(),
        ensures
            final(ctx).wf(),
            self.runs(old(ctx), final(ctx), rv as int),
    ;
}

/// The failure reported for a negative return code.
pub open spec fn call_failed(rv: int) -> bool {
    rv < 0
}

/// What a return code amounts to: a negative one is the failure
/// `function failed`.
pub fn call_result(rv: i32) -> (res: Result<(), crate::Error>)
    ensures
        res is Err <==> call_failed(rv as int),
        res matches Err(e) ==> e.text() == "function failed"@,
{
    if rv < 0 {
        return Err(crate::Error::Message("function failed".to_owned()));
    }
    Ok(())
}

impl Context {
    /// Pushes a callable with entry point `entry`, registered with arity
    /// `nargs`.
    pub fn push_callable(&mut self, entry: u64, nargs: i32)
        requires
            old(self).wf(),
            old(self).has_room(1),
        ensures
            final(self).wf(),
            final(self)@ == old(self)@.push(
                SlotView::Function { entry: entry as int, nargs: nargs as int },
            ),
            final(self).ambient() == old(self).ambient(),
    {
        self.push_slot(Slot::Function { entry, nargs });
    }

    /// Pushes `f` as a callable.
    pub fn push_function<F: Function>(&mut self, f: &F)
        requires
            old(self).wf(),
            old(self).has_room(1),
        ensures
            final(self).wf(),
            final(self)@ == old(self)@.push(
                SlotView::Function { entry: f.address(), nargs: f.nargs() },
            ),
            final(self).ambient() == old(self).ambient(),
    {
        let entry = f.ptr();
        let nargs = f.args();
        self.push_callable(entry, nargs);
    }

    /// Binds `f` as a callable under the global name `name`.
    pub fn register_function<F: Function>(&mut self, name: &str, f: &F)
        requires
            old(self).wf(),
            old(self).has_room(1),
        ensures
            final(self).wf(),
            final(self)@ == old(self)@,
            final(self).ambient() == (Ambient {
                globals: bind_key(
                    old(self).ambient().globals,
                    encode_utf8(name@),
                    SlotView::Function { entry: f.address(), nargs: f.nargs() },
                ),
                this: old(self).ambient().this,
            }),
    {
        self.push_function(f);
        self.put_global_string(name);
        assert(self@ =~= old(self)@);
    }

    /// Binds `f` as a callable under the property `name` of the object that
    /// `idx` denotes: the registration of a method.
    pub fn register_method<F: Function>(&mut self, idx: u32, name: &str, f: &F)
        requires
            old(self).wf(),
            old(self).has_room(1),
            idx < old(self)@.len(),
            old(self)@[idx as int] is Object,
        ensures
            final(self).wf(),
            final(self)@ == old(self)@.update(
                idx as int,
                SlotView::Object(
                    bind_key(
                        old(self)@[idx as int]->Object_0,
                        encode_utf8(name@),
                        SlotView::Function { entry: f.address(), nargs: f.nargs() },
                    ),
                ),
            ),
            final(self).ambient() == old(self).ambient(),
    {
        let _ = self.stack_len();
        self.push_function(f);
        self.put_prop_string(idx as i32, name);
        assert(self@ =~= old(self)@.update(
            idx as int,
            SlotView::Object(
                bind_key(
                    old(self)@[idx as int]->Object_0,
                    encode_utf8(name@),
                    SlotView::Function { entry: f.address(), nargs: f.nargs() },
                ),
            ),
        ));
    }

    /// Runs the entry point of `f` on this stack, as the engine would: the
    /// stack machine is left as one run of the entry point leaves it, and
    /// the call fails exactly where that run gave a negative return code,
    /// as the failure `function failed`.
    pub fn call_function<F: Function>(&mut self, f: &F) -> (res: Result<(), crate::Error>)
        requires
            old(self).wf(),
        ensures
            final(self).wf(),
            exists|rv: int|
                #[trigger] f.runs(old(self), final(self), rv) && (res is Err <==> call_failed(rv)),
            res matches Err(e) ==> e.text() == "function failed"@,
    {
        let rv = f.call(self);
        assert(f.runs(old(self), self, rv as int));
        call_result(rv)
    }
}

/// What the attribute on a function comes to: the entries of the attribute
/// are taken first, then the trampoline of the signature is planned under
/// them.
pub fn duktape(attr: &Vec<KV>, sig: &SignatureInput) -> (res: Result<Trampoline, MacroError>)
    requires
        sig.params.len() <= i32::MAX,
    ensures
        match parsed(attr@, attr.len() as int) {
            Err(f) => res matches Err(e) && e@ == f,
            Ok((this, vararg)) => match planned(this, *sig) {
                Err(f) => res matches Err(e) && e@ == f,
                Ok((count, method, positions)) => res matches Ok(t) && t.follows(
                    this,
                    vararg,
                    *sig,
                    count,
                    method,
                    positions,
                ),
            },
        },
{
    match Args::check(attr) {
        Ok(()) => {},
        Err(e) => {
            return Err(e);
        },
    }
    let args = match Args::parse(attr) {
        Ok(args) => args,
        Err(e) => {
            return Err(e);
        },
    };
    Trampoline::plan(&args, sig)
}

} // verus!
