//! The pattern interpreter: from a prototype and its pattern instructions to
//! the safe function that wraps the raw call.
//!
//! The instructions are taken in order. Each may add to the parameters of
//! the safe function, to the steps before the raw call, to the arguments of
//! the raw call, to the steps after it, and to the results.

use crate::error::agrees;
use crate::error::Fault;
use crate::invariants::lemma_fault_stays;
use crate::model::names;
use crate::model::view_opt;
use crate::model::Address;
use crate::pattern::Comparator;
use crate::pattern::Instruction;
use crate::prototype::find_index;
use crate::prototype::get_formal_type;
use crate::prototype::lemma_position;
use crate::prototype::position;
use crate::prototype::Prototype;
use crate::prototype::PrototypeView;
use crate::text::same_text;
use crate::text::views;
use crate::types::base_name;
use crate::types::is_const;
use crate::types::pointer_depth;
use crate::types::safe;
use crate::types::safe_type;
use crate::types::shape;
use vstd::prelude::*;

verus! {

/// How a parameter of the safe function is passed.
#[derive(Debug, Copy, Clone, PartialEq, Eq, Structural)]
pub enum ParamShape {
    /// A borrowed null-terminated string.
    Text,
    /// An untyped handle pointer.
    RawHandle,
    /// A scalar, by value.
    Value,
    /// A borrowed wrapper: an opaque handle, or a struct.
    Handle,
    /// A mutable reference to a scalar.
    MutValue,
    /// An optional mutable reference to a scalar.
    OptMutValue,
    /// A mutable reference to a wrapper.
    MutHandle,
    /// A borrowed sequence of scalars.
    Slice,
    /// A mutable growable buffer of scalars.
    Buffer,
}

/// A parameter of the safe function. `ty` is the type of the scalar or of
/// the handle; it is empty for `Text` and `RawHandle`.
#[derive(Debug, Clone, PartialEq, Eq)]
pub struct PublicParam<S> {
    pub name: S,
    pub shape: ParamShape,
    pub ty: S,
}

impl View for PublicParam<String> {
    type V = PublicParam<Seq<char>>;

    open spec fn view(&self) -> PublicParam<Seq<char>> {
        PublicParam { name: self.name@, shape: self.shape, ty: self.ty@ }
    }
}

/// What a step before the raw call does.
#[derive(Debug, Copy, Clone, PartialEq, Eq, Structural)]
pub enum SetupKind {
    /// Allocates an uninitialised slot for the call to fill.
    Slot,
    /// Copies the referenced scalar into a temporary of the raw width.
    Temp,
    /// As `Temp`, where the optional reference is present.
    OptTemp,
    /// Stops the program if the handle was released before.
    Live,
}

/// A step before the raw call, on the parameter `name`.
#[derive(Debug, Clone, PartialEq, Eq)]
pub struct Setup<S> {
    pub kind: SetupKind,
    pub name: S,
}

impl View for Setup<String> {
    type V = Setup<Seq<char>>;

    open spec fn view(&self) -> Setup<Seq<char>> {
        Setup { kind: self.kind, name: self.name@ }
    }
}

/// What is handed to the raw call at one position.
#[derive(Debug, Copy, Clone, PartialEq, Eq, Structural)]
pub enum ArgKind {
    /// The address to write to: of a slot, or of the start of a buffer.
    WritePtr,
    /// The address to read from: of a string, or of the start of a slice.
    ReadPtr,
    /// The value as it is.
    Verbatim,
    /// The pointer inside a handle.
    Inner,
    /// The scalar, cast to the raw width.
    Cast,
    /// The address of the temporary.
    TempAddr,
    /// The address of the temporary, or null where the reference is absent.
    OptTempAddr,
    /// The number of elements of the slice.
    Len,
    /// The capacity of the buffer.
    Capacity,
}

/// An argument of the raw call, made from the safe function's `name`.
#[derive(Debug, Clone, PartialEq, Eq)]
pub struct Arg<S> {
    pub kind: ArgKind,
    pub name: S,
}

impl View for Arg<String> {
    type V = Arg<Seq<char>>;

    open spec fn view(&self) -> Arg<Seq<char>> {
        Arg { kind: self.kind, name: self.name@ }
    }
}

/// A step after the raw call.
#[derive(Debug, Clone, PartialEq, Eq)]
pub enum Finish<S> {
    /// Takes the slot as initialised.
    Init(S),
    /// Returns the raw return value as an error if it compares so with the
    /// literal.
    FailIf(Comparator, S),
    /// Writes the temporary back through the reference.
    Store(S),
    /// Writes the temporary back where the reference is present.
    OptStore(S),
    /// Marks the handle as released.
    Null(S),
    /// Sets the length of the buffer: to the parameter named, or to the raw
    /// return value where none is. The length is not held against the
    /// capacity: the caller reserves.
    SetLen(S, Option<S>),
}

impl View for Finish<String> {
    type V = Finish<Seq<char>>;

    open spec fn view(&self) -> Finish<Seq<char>> {
        match self {
            Finish::Init(a) => Finish::Init(a@),
            Finish::FailIf(c, a) => Finish::FailIf(*c, a@),
            Finish::Store(a) => Finish::Store(a@),
            Finish::OptStore(a) => Finish::OptStore(a@),
            Finish::Null(a) => Finish::Null(a@),
            Finish::SetLen(a, b) => Finish::SetLen(a@, view_opt(*b)),
        }
    }
}

/// How a result of the safe function is handed out.
#[derive(Debug, Copy, Clone, PartialEq, Eq, Structural)]
pub enum OutputShape {
    /// An untyped pointer.
    RawPointer,
    /// A scalar.
    Value,
    /// A pointer in its wrapper.
    Handle,
}

/// A result of the safe function: the slot called `name`, or the raw return
/// value where `name` is `None`. `ty` is empty for `RawPointer`.
#[derive(Debug, Clone, PartialEq, Eq)]
pub struct Output<S> {
    pub name: Option<S>,
    pub shape: OutputShape,
    pub ty: S,
}

impl View for Output<String> {
    type V = Output<Seq<char>>;

    open spec fn view(&self) -> Output<Seq<char>> {
        Output { name: view_opt(self.name), shape: self.shape, ty: self.ty@ }
    }
}

/// The safe function for one prototype.
#[derive(Debug, Clone, PartialEq, Eq)]
pub struct SafeFunction {
    /// The parameters, in the order in which the instructions brought them.
    pub params: Vec<PublicParam<String>>,
    /// The steps before the raw call.
    pub preamble: Vec<Setup<String>>,
    /// The arguments of the raw call, one for each parameter of the
    /// prototype, by position.
    pub args: Vec<Arg<String>>,
    /// The steps after the raw call.
    pub postamble: Vec<Finish<String>>,
    /// The results: none is unit, one is itself, more are a tuple.
    pub outputs: Vec<Output<String>>,
    /// The error type, where the function can fail.
    pub failure: Option<String>,
}

pub struct SafeFunctionView {
    pub params: Seq<PublicParam<Seq<char>>>,
    pub preamble: Seq<Setup<Seq<char>>>,
    pub args: Seq<Arg<Seq<char>>>,
    pub postamble: Seq<Finish<Seq<char>>>,
    pub outputs: Seq<Output<Seq<char>>>,
    pub failure: Option<Seq<char>>,
}

impl View for SafeFunction {
    type V = SafeFunctionView;

    open spec fn view(&self) -> SafeFunctionView {
        SafeFunctionView {
            params: views(self.params@),
            preamble: views(self.preamble@),
            args: views(self.args@),
            postamble: views(self.postamble@),
            outputs: views(self.outputs@),
            failure: view_opt(self.failure),
        }
    }
}

/// The state of the interpreter between instructions. `slots` has one entry
/// for each parameter of the prototype: the argument, once an instruction
/// has filled the position.
pub struct Draft {
    pub params: Seq<PublicParam<Seq<char>>>,
    pub preamble: Seq<Setup<Seq<char>>>,
    pub slots: Seq<Option<Arg<Seq<char>>>>,
    pub postamble: Seq<Finish<Seq<char>>>,
    pub outputs: Seq<Output<Seq<char>>>,
    pub checked: bool,
}

/// The state before the first instruction, for a prototype of `n`
/// parameters.
pub open spec fn blank_draft(n: nat) -> Draft {
    Draft {
        params: Seq::empty(),
        preamble: Seq::empty(),
        slots: Seq::new(n, |i: int| None),
        postamble: Seq::empty(),
        outputs: Seq::empty(),
        checked: false,
    }
}

pub open spec fn with_param(d: Draft, name: Seq<char>, shape: ParamShape, ty: Seq<char>) -> Draft {
    Draft { params: d.params.push(PublicParam { name, shape, ty }), ..d }
}

pub open spec fn with_setup(d: Draft, kind: SetupKind, name: Seq<char>) -> Draft {
    Draft { preamble: d.preamble.push(Setup { kind, name }), ..d }
}

pub open spec fn with_finish(d: Draft, step: Finish<Seq<char>>) -> Draft {
    Draft { postamble: d.postamble.push(step), ..d }
}

pub open spec fn with_output(d: Draft, out: Output<Seq<char>>) -> Draft {
    Draft { outputs: d.outputs.push(out), ..d }
}

/// Fills position `i` of the raw call. A position is filled once: a second
/// instruction for it is not supported.
pub open spec fn fill(d: Draft, i: int, kind: ArgKind, name: Seq<char>) -> Result<Draft, Fault> {
    if !(0 <= i < d.slots.len()) || d.slots[i] is Some {
        Err(Fault::UnsupportedConstruct)
    } else {
        Ok(Draft { slots: d.slots.update(i, Some(Arg { kind, name })), ..d })
    }
}

/// Whether an instruction has filled position `i` of the raw call.
pub open spec fn bound_at(d: Draft, i: int) -> bool {
    0 <= i < d.slots.len() && d.slots[i] is Some
}

/// The result that a value of the C type `ty` makes: a pointer to `void` is
/// handed out untyped, anything else as `safe_type` sees it.
pub open spec fn output_of(name: Option<Seq<char>>, ty: Seq<char>, addresses: Seq<Seq<char>>)
    -> Output<Seq<char>> {
    if base_name(ty) == "void"@ && pointer_depth(ty) >= 1 {
        Output { name, shape: OutputShape::RawPointer, ty: Seq::empty() }
    } else {
        let st = safe_type(ty, addresses);
        Output {
            name,
            shape: if st.wrapped {
                OutputShape::Handle
            } else {
                OutputShape::Value
            },
            ty: st.name,
        }
    }
}

/// A slot for the parameter `name` at position `i` that the call fills and
/// the safe function hands out.
pub open spec fn produce(
    proto: PrototypeView,
    addresses: Seq<Seq<char>>,
    d: Draft,
    name: Seq<char>,
    i: int,
) -> Result<Draft, Fault> {
    fill(
        with_output(
            with_finish(with_setup(d, SetupKind::Slot, name), Finish::Init(name)),
            output_of(Some(name), proto.pars[i].0, addresses),
        ),
        i,
        ArgKind::WritePtr,
        name,
    )
}

/// A scalar that the call may change, behind a reference that is optional
/// or not.
pub open spec fn exchange(
    proto: PrototypeView,
    addresses: Seq<Seq<char>>,
    d: Draft,
    name: Seq<char>,
    i: int,
    optional: bool,
) -> Result<Draft, Fault> {
    let ty = proto.pars[i].0;
    let st = safe_type(ty, addresses);
    if is_const(ty) || st.wrapped {
        Err(Fault::UnsupportedConstruct)
    } else if optional {
        fill(
            with_finish(
                with_setup(
                    with_param(d, name, ParamShape::OptMutValue, st.name),
                    SetupKind::OptTemp,
                    name,
                ),
                Finish::OptStore(name),
            ),
            i,
            ArgKind::OptTempAddr,
            name,
        )
    } else {
        fill(
            with_finish(
                with_setup(with_param(d, name, ParamShape::MutValue, st.name), SetupKind::Temp, name),
                Finish::Store(name),
            ),
            i,
            ArgKind::TempAddr,
            name,
        )
    }
}

/// A sequence of scalars at position `i` with its count at position `n`:
/// borrowed for reading, or a buffer for the call to write to.
pub open spec fn spread(
    proto: PrototypeView,
    addresses: Seq<Seq<char>>,
    d: Draft,
    name: Seq<char>,
    n: int,
    i: int,
    source: Option<Option<Seq<char>>>,
) -> Result<Draft, Fault> {
    let st = safe_type(proto.pars[i].0, addresses);
    if st.wrapped {
        Err(Fault::UnsupportedConstruct)
    } else {
        match source {
            None => match fill(
                with_param(d, name, ParamShape::Slice, st.name),
                i,
                ArgKind::ReadPtr,
                name,
            ) {
                Ok(d1) => fill(d1, n, ArgKind::Len, name),
                Err(e) => Err(e),
            },
            Some(from) => match fill(
                with_finish(
                    with_param(d, name, ParamShape::Buffer, st.name),
                    Finish::SetLen(name, from),
                ),
                i,
                ArgKind::WritePtr,
                name,
            ) {
                Ok(d1) => fill(d1, n, ArgKind::Capacity, name),
                Err(e) => Err(e),
            },
        }
    }
}

/// The state after the instruction `ins`, or the fault that it has.
///
/// An instruction that names a parameter which the prototype does not have
/// is `UnboundParameter`, and so is an `OUT` that names a parameter which no
/// earlier instruction has bound. A second `OK` is `DuplicateErrorCheck`.
/// These are
/// `UnsupportedConstruct`: `MUT` or `OPT_MUT` on a `const` type or on a type
/// without scalar equivalent; `OLD` on a `const` type or on a scalar type;
/// `SLICE` or `OUT_VEC` with elements without scalar equivalent; and a
/// position of the raw call that an earlier instruction has filled.
pub open spec fn step(
    proto: PrototypeView,
    addresses: Seq<Seq<char>>,
    d: Draft,
    ins: Instruction<Seq<char>>,
) -> Result<Draft, Fault> {
    match ins {
        Instruction::New(p) => match position(proto.pars, p) {
            Some(i) => produce(proto, addresses, d, p, i),
            None => Err(Fault::UnboundParameter),
        },
        Instruction::Out(Some(p)) => match position(proto.pars, p) {
            Some(i) => if bound_at(d, i) {
                Ok(with_output(d, output_of(Some(p), proto.pars[i].0, addresses)))
            } else {
                Err(Fault::UnboundParameter)
            },
            None => Err(Fault::UnboundParameter),
        },
        Instruction::Out(None) => Ok(with_output(d, output_of(None, proto.ret, addresses))),
        Instruction::Str(p) => match position(proto.pars, p) {
            Some(i) => fill(
                with_param(d, p, ParamShape::Text, Seq::empty()),
                i,
                ArgKind::ReadPtr,
                p,
            ),
            None => Err(Fault::UnboundParameter),
        },
        Instruction::Raw(p) => match position(proto.pars, p) {
            Some(i) => fill(
                with_param(d, p, ParamShape::RawHandle, Seq::empty()),
                i,
                ArgKind::Verbatim,
                p,
            ),
            None => Err(Fault::UnboundParameter),
        },
        Instruction::Val(p) => match position(proto.pars, p) {
            Some(i) => {
                let st = safe_type(proto.pars[i].0, addresses);
                if st.wrapped {
                    fill(with_param(d, p, ParamShape::Handle, st.name), i, ArgKind::Inner, p)
                } else {
                    fill(with_param(d, p, ParamShape::Value, st.name), i, ArgKind::Cast, p)
                }
            },
            None => Err(Fault::UnboundParameter),
        },
        Instruction::Check(cmp, literal) => if d.checked {
            Err(Fault::DuplicateErrorCheck)
        } else {
            Ok(Draft { checked: true, ..with_finish(d, Finish::FailIf(cmp.negated(), literal)) })
        },
        Instruction::Mut(p) => match position(proto.pars, p) {
            Some(i) => exchange(proto, addresses, d, p, i, false),
            None => Err(Fault::UnboundParameter),
        },
        Instruction::OptMut(p) => match position(proto.pars, p) {
            Some(i) => exchange(proto, addresses, d, p, i, true),
            None => Err(Fault::UnboundParameter),
        },
        Instruction::Old(p) => match position(proto.pars, p) {
            Some(i) => {
                let ty = proto.pars[i].0;
                let st = safe_type(ty, addresses);
                if is_const(ty) || !st.wrapped {
                    Err(Fault::UnsupportedConstruct)
                } else {
                    fill(
                        with_finish(
                            with_setup(
                                with_param(d, p, ParamShape::MutHandle, st.name),
                                SetupKind::Live,
                                p,
                            ),
                            Finish::Null(p),
                        ),
                        i,
                        ArgKind::Inner,
                        p,
                    )
                }
            },
            None => Err(Fault::UnboundParameter),
        },
        Instruction::Slice(len, p) => match (position(proto.pars, len), position(proto.pars, p)) {
            (Some(n), Some(i)) => spread(proto, addresses, d, p, n, i, None),
            _ => Err(Fault::UnboundParameter),
        },
        Instruction::OutVec(len, p, source) => match (
            position(proto.pars, len),
            position(proto.pars, p),
        ) {
            (Some(n), Some(i)) => if source is Some && position(proto.pars, source->0) is None {
                Err(Fault::UnboundParameter)
            } else {
                spread(proto, addresses, d, p, n, i, Some(source))
            },
            _ => Err(Fault::UnboundParameter),
        },
    }
}

/// The state after the instructions `instrs`, taken in order from the blank
/// state, or the first fault among them.
pub open spec fn drafted(
    proto: PrototypeView,
    addresses: Seq<Seq<char>>,
    instrs: Seq<Instruction<Seq<char>>>,
) -> Result<Draft, Fault>
    decreases instrs.len(),
{
    if instrs.len() == 0 {
        Ok(blank_draft(proto.pars.len()))
    } else {
        match drafted(proto, addresses, instrs.drop_last()) {
            Ok(d) => step(proto, addresses, d, instrs.last()),
            Err(e) => Err(e),
        }
    }
}

/// Whether every position of the raw call is filled.
pub open spec fn complete(d: Draft) -> bool {
    forall|i: int| 0 <= i < d.slots.len() ==> (#[trigger] d.slots[i]) is Some
}

/// The safe function that the state `d` describes. A position of the raw
/// call that no instruction has filled is `UnboundParameter`.
pub open spec fn finished(proto: PrototypeView, addresses: Seq<Seq<char>>, d: Draft) -> Result<
    SafeFunctionView,
    Fault,
> {
    if complete(d) {
        Ok(
            SafeFunctionView {
                params: d.params,
                preamble: d.preamble,
                args: Seq::new(d.slots.len(), |i: int| d.slots[i]->0),
                postamble: d.postamble,
                outputs: d.outputs,
                failure: if d.checked {
                    Some(safe_type(proto.ret, addresses).name)
                } else {
                    None
                },
            },
        )
    } else {
        Err(Fault::UnboundParameter)
    }
}

/// The safe function for the prototype `proto` under the instructions
/// `instrs`, where `addresses` are the names of the opaque types.
pub open spec fn interpretation(
    proto: PrototypeView,
    addresses: Seq<Seq<char>>,
    instrs: Seq<Instruction<Seq<char>>>,
) -> Result<SafeFunctionView, Fault> {
    match drafted(proto, addresses, instrs) {
        Ok(d) => finished(proto, addresses, d),
        Err(e) => Err(e),
    }
}

/// The views of the slots.
pub open spec fn slot_views(slots: Seq<Option<Arg<String>>>) -> Seq<Option<Arg<Seq<char>>>> {
    slots.map_values(
        |o: Option<Arg<String>>|
            match o {
                Some(a) => Some(a@),
                None => None,
            },
    )
}

/// The state of the interpreter between instructions.
pub struct Work {
    params: Vec<PublicParam<String>>,
    preamble: Vec<Setup<String>>,
    slots: Vec<Option<Arg<String>>>,
    postamble: Vec<Finish<String>>,
    outputs: Vec<Output<String>>,
    checked: bool,
}

impl View for Work {
    type V = Draft;

    closed spec fn view(&self) -> Draft {
        Draft {
            params: views(self.params@),
            preamble: views(self.preamble@),
            slots: slot_views(self.slots@),
            postamble: views(self.postamble@),
            outputs: views(self.outputs@),
            checked: self.checked,
        }
    }
}

impl Work {
    /// The state before the first instruction.
    fn start(n: usize) -> (r: Work)
        ensures
            r@ == blank_draft(n as nat),
    {
        let mut slots: Vec<Option<Arg<String>>> = Vec::new();
        let mut i: usize = 0;
        while i < n
            invariant
                i <= n,
                slots.len() == i,
                forall|j: int| 0 <= j < i ==> slots@[j] is None,
            decreases n - i,
        {
            slots.push(None);
            i = i + 1;
        }
        let r = Work {
            params: Vec::new(),
            preamble: Vec::new(),
            slots,
            postamble: Vec::new(),
            outputs: Vec::new(),
            checked: false,
        };
        proof {
            let b = blank_draft(n as nat);
            assert(r@.params =~= b.params);
            assert(r@.preamble =~= b.preamble);
            assert(r@.slots =~= b.slots);
            assert(r@.postamble =~= b.postamble);
            assert(r@.outputs =~= b.outputs);
        }
        r
    }

    fn add_param(self, name: &String, shape: ParamShape, ty: String) -> (r: Work)
        ensures
            r@ == with_param(self@, name@, shape, ty@),
    {
        let mut w = self;
        w.params.push(PublicParam { name: name.clone(), shape, ty });
        assert(w@.params =~= with_param(self@, name@, shape, ty@).params);
        w
    }

    fn add_setup(self, kind: SetupKind, name: &String) -> (r: Work)
        ensures
            r@ == with_setup(self@, kind, name@),
    {
        let mut w = self;
        w.preamble.push(Setup { kind, name: name.clone() });
        assert(w@.preamble =~= with_setup(self@, kind, name@).preamble);
        w
    }

    fn add_finish(self, step: Finish<String>) -> (r: Work)
        ensures
            r@ == with_finish(self@, step@),
    {
        let mut w = self;
        w.postamble.push(step);
        assert(w@.postamble =~= with_finish(self@, step@).postamble);
        w
    }

    fn add_output(self, out: Output<String>) -> (r: Work)
        ensures
            r@ == with_output(self@, out@),
    {
        let mut w = self;
        w.outputs.push(out);
        assert(w@.outputs =~= with_output(self@, out@).outputs);
        w
    }

    fn mark_checked(self) -> (r: Work)
        ensures
            r@ == (Draft { checked: true, ..self@ }),
    {
        let mut w = self;
        w.checked = true;
        w
    }

    fn is_bound(&self, i: usize) -> (r: bool)
        ensures
            r == bound_at(self@, i as int),
    {
        i < self.slots.len() && self.slots[i].is_some()
    }

    fn put(self, i: usize, kind: ArgKind, name: &String) -> (r: Result<Work, Fault>)
        ensures
            agrees(r, fill(self@, i as int, kind, name@)),
    {
        if i >= self.slots.len() {
            return Err(Fault::UnsupportedConstruct);
        }
        if self.slots[i].is_some() {
            return Err(Fault::UnsupportedConstruct);
        }
        let mut w = self;
        w.slots.set(i, Some(Arg { kind, name: name.clone() }));
        assert(w@.slots =~= self@.slots.update(i as int, Some(Arg { kind, name: name@ })));
        Ok(w)
    }
}

/// The result that a value of the C type `ty` makes.
fn output_for(name: Option<String>, ty: &str, addresses: &Vec<Address>) -> (r: Output<String>)
    ensures
        r@ == output_of(view_opt(name), ty@, names(views(addresses@))),
{
    let parts = shape(ty);
    if same_text(parts.base.as_str(), "void") && parts.depth >= 1 {
        Output { name, shape: OutputShape::RawPointer, ty: String::new() }
    } else {
        let st = safe(ty, addresses);
        Output {
            name,
            shape: if st.wrapped {
                OutputShape::Handle
            } else {
                OutputShape::Value
            },
            ty: st.name,
        }
    }
}

fn produce_slot(
    proto: &Prototype,
    addresses: &Vec<Address>,
    d: Work,
    name: &String,
    i: usize,
) -> (r: Result<Work, Fault>)
    requires
        position(proto@.pars, name@) == Some(i as int),
    ensures
        agrees(r, produce(proto@, names(views(addresses@)), d@, name@, i as int)),
{
    let ty = get_formal_type(&proto.pars, name.as_str());
    let out = output_for(Some(name.clone()), ty.as_str(), addresses);
    d.add_setup(SetupKind::Slot, name).add_finish(Finish::Init(name.clone())).add_output(out).put(
        i,
        ArgKind::WritePtr,
        name,
    )
}

fn exchange_scalar(
    proto: &Prototype,
    addresses: &Vec<Address>,
    d: Work,
    name: &String,
    i: usize,
    optional: bool,
) -> (r: Result<Work, Fault>)
    requires
        position(proto@.pars, name@) == Some(i as int),
    ensures
        agrees(r, exchange(proto@, names(views(addresses@)), d@, name@, i as int, optional)),
{
    let ty = get_formal_type(&proto.pars, name.as_str());
    let ty = ty.as_str();
    let st = safe(ty, addresses);
    if shape(ty).constant || st.wrapped {
        Err(Fault::UnsupportedConstruct)
    } else if optional {
        d.add_param(name, ParamShape::OptMutValue, st.name).add_setup(
            SetupKind::OptTemp,
            name,
        ).add_finish(Finish::OptStore(name.clone())).put(i, ArgKind::OptTempAddr, name)
    } else {
        d.add_param(name, ParamShape::MutValue, st.name).add_setup(SetupKind::Temp, name).add_finish(
            Finish::Store(name.clone()),
        ).put(i, ArgKind::TempAddr, name)
    }
}

fn spread_sequence(
    proto: &Prototype,
    addresses: &Vec<Address>,
    d: Work,
    name: &String,
    n: usize,
    i: usize,
    source: Option<Option<String>>,
) -> (r: Result<Work, Fault>)
    requires
        position(proto@.pars, name@) == Some(i as int),
    ensures
        agrees(
            r,
            spread(
                proto@,
                names(views(addresses@)),
                d@,
                name@,
                n as int,
                i as int,
                match source {
                    Some(from) => Some(view_opt(from)),
                    None => None,
                },
            ),
        ),
{
    let ty = get_formal_type(&proto.pars, name.as_str());
    let st = safe(ty.as_str(), addresses);
    if st.wrapped {
        return Err(Fault::UnsupportedConstruct);
    }
    match source {
        None => {
            match d.add_param(name, ParamShape::Slice, st.name).put(i, ArgKind::ReadPtr, name) {
                Ok(d1) => d1.put(n, ArgKind::Len, name),
                Err(e) => Err(e),
            }
        },
        Some(from) => {
            match d.add_param(name, ParamShape::Buffer, st.name).add_finish(
                Finish::SetLen(name.clone(), from),
            ).put(i, ArgKind::WritePtr, name) {
                Ok(d1) => d1.put(n, ArgKind::Capacity, name),
                Err(e) => Err(e),
            }
        },
    }
}

/// The position of the parameter called `name`.
fn locate(proto: &Prototype, name: &String) -> (r: Option<usize>)
    ensures
        match r {
            Some(i) => position(proto@.pars, name@) == Some(i as int) && i < proto.pars.len(),
            None => position(proto@.pars, name@) is None,
        },
{
    proof {
        lemma_position(proto@.pars, name@);
    }
    find_index(&proto.pars, name.as_str())
}

/// Takes one instruction.
fn advance(proto: &Prototype, addresses: &Vec<Address>, d: Work, ins: &Instruction<String>) -> (r:
    Result<Work, Fault>)
    ensures
        agrees(r, step(proto@, names(views(addresses@)), d@, ins@)),
{
    match ins {
        Instruction::New(p) => match locate(proto, p) {
            Some(i) => produce_slot(proto, addresses, d, p, i),
            None => Err(Fault::UnboundParameter),
        },
        Instruction::Out(Some(p)) => match locate(proto, p) {
            Some(i) => {
                if d.is_bound(i) {
                    let ty = get_formal_type(&proto.pars, p.as_str());
                    let out = output_for(Some(p.clone()), ty.as_str(), addresses);
                    Ok(d.add_output(out))
                } else {
                    Err(Fault::UnboundParameter)
                }
            },
            None => Err(Fault::UnboundParameter),
        },
        Instruction::Out(None) => {
            let out = output_for(None, proto.ret.as_str(), addresses);
            Ok(d.add_output(out))
        },
        Instruction::Str(p) => match locate(proto, p) {
            Some(i) => d.add_param(p, ParamShape::Text, String::new()).put(i, ArgKind::ReadPtr, p),
            None => Err(Fault::UnboundParameter),
        },
        Instruction::Raw(p) => match locate(proto, p) {
            Some(i) => d.add_param(p, ParamShape::RawHandle, String::new()).put(
                i,
                ArgKind::Verbatim,
                p,
            ),
            None => Err(Fault::UnboundParameter),
        },
        Instruction::Val(p) => match locate(proto, p) {
            Some(i) => {
                let ty = get_formal_type(&proto.pars, p.as_str());
                let st = safe(ty.as_str(), addresses);
                if st.wrapped {
                    d.add_param(p, ParamShape::Handle, st.name).put(i, ArgKind::Inner, p)
                } else {
                    d.add_param(p, ParamShape::Value, st.name).put(i, ArgKind::Cast, p)
                }
            },
            None => Err(Fault::UnboundParameter),
        },
        Instruction::Check(cmp, literal) => {
            if d.checked {
                Err(Fault::DuplicateErrorCheck)
            } else {
                Ok(d.add_finish(Finish::FailIf(cmp.negate(), literal.clone())).mark_checked())
            }
        },
        Instruction::Mut(p) => match locate(proto, p) {
            Some(i) => exchange_scalar(proto, addresses, d, p, i, false),
            None => Err(Fault::UnboundParameter),
        },
        Instruction::OptMut(p) => match locate(proto, p) {
            Some(i) => exchange_scalar(proto, addresses, d, p, i, true),
            None => Err(Fault::UnboundParameter),
        },
        Instruction::Old(p) => match locate(proto, p) {
            Some(i) => {
                let ty = get_formal_type(&proto.pars, p.as_str());
                let ty = ty.as_str();
                let st = safe(ty, addresses);
                if shape(ty).constant || !st.wrapped {
                    Err(Fault::UnsupportedConstruct)
                } else {
                    d.add_param(p, ParamShape::MutHandle, st.name).add_setup(
                        SetupKind::Live,
                        p,
                    ).add_finish(Finish::Null(p.clone())).put(i, ArgKind::Inner, p)
                }
            },
            None => Err(Fault::UnboundParameter),
        },
        Instruction::Slice(len, p) => match (locate(proto, len), locate(proto, p)) {
            (Some(n), Some(i)) => spread_sequence(proto, addresses, d, p, n, i, None),
            _ => Err(Fault::UnboundParameter),
        },
        Instruction::OutVec(len, p, source) => match (locate(proto, len), locate(proto, p)) {
            (Some(n), Some(i)) => {
                let known = match source {
                    Some(s) => locate(proto, s).is_some(),
                    None => true,
                };
                if !known {
                    Err(Fault::UnboundParameter)
                } else {
                    spread_sequence(proto, addresses, d, p, n, i, Some(source.clone()))
                }
            },
            _ => Err(Fault::UnboundParameter),
        },
    }
}

/// The safe function that the state `d` describes.
fn finish(proto: &Prototype, addresses: &Vec<Address>, d: Work) -> (r: Result<SafeFunction, Fault>)
    ensures
        agrees(r, finished(proto@, names(views(addresses@)), d@)),
{
    let ghost draft = d@;
    let Work { params, preamble, slots, postamble, outputs, checked } = d;
    let mut slots = slots;
    let mut args: Vec<Arg<String>> = Vec::new();
    let n: usize = slots.len();
    let ghost all = slot_views(slots@);
    let mut i: usize = n;
    // Taken from the back, so that each argument is moved out of its slot.
    while i > 0
        invariant
            i <= n,
            slots.len() == i,
            draft == d@,
            all == draft.slots,
            all.len() == n,
            slot_views(slots@) == all.take(i as int),
            args.len() == n - i,
            forall|j: int| i <= j < n ==> (#[trigger] all[j]) is Some,
            forall|j: int| 0 <= j < n - i ==> (#[trigger] args@[j])@ == all[n - 1 - j]->0,
        decreases i,
    {
        let ghost before = slots@;
        let last = slots.pop();
        assert(slots@ =~= before.drop_last());
        assert(slot_views(slots@) =~= all.take(i - 1));
        assert(slot_views(before)[i - 1] == all[i - 1]);
        match last {
            Some(Some(a)) => {
                args.push(a);
            },
            _ => {
                assert(draft.slots[i - 1] is None);
                assert(!complete(draft));
                return Err(Fault::UnboundParameter);
            },
        }
        i = i - 1;
    }
    let mut ordered: Vec<Arg<String>> = Vec::new();
    let mut k: usize = n;
    while k > 0
        invariant
            k <= n,
            args.len() == k,
            ordered.len() == n - k,
            all.len() == n,
            forall|j: int| 0 <= j < k ==> (#[trigger] args@[j])@ == all[n - 1 - j]->0,
            forall|j: int| 0 <= j < n - k ==> (#[trigger] ordered@[j])@ == all[j]->0,
        decreases k,
    {
        let ghost before = args@;
        let a = args.pop();
        assert(args@ =~= before.drop_last());
        match a {
            Some(a) => {
                ordered.push(a);
            },
            None => {},
        }
        k = k - 1;
    }
    let failure = if checked {
        Some(safe(proto.ret.as_str(), addresses).name)
    } else {
        None
    };
    let r = SafeFunction { params, preamble, args: ordered, postamble, outputs, failure };
    proof {
        assert(complete(draft));
        assert(r@.args =~= Seq::new(draft.slots.len(), |i: int| draft.slots[i]->0));
    }
    Ok(r)
}

/// Works out the safe function for `proto` under the instructions `instrs`,
/// where `addresses` are the opaque types.
pub fn interpret(proto: &Prototype, instrs: &Vec<Instruction<String>>, addresses: &Vec<Address>) -> (r:
    Result<SafeFunction, Fault>)
    ensures
        agrees(r, interpretation(proto@, names(views(addresses@)), views(instrs@))),
{
    let ghost all = views(instrs@);
    let ghost addrs = names(views(addresses@));
    let mut d = Work::start(proto.pars.len());
    let mut i: usize = 0;
    assert(all.take(0) =~= Seq::<Instruction<Seq<char>>>::empty());
    while i < instrs.len()
        invariant
            i <= instrs.len(),
            all == views(instrs@),
            addrs == names(views(addresses@)),
            drafted(proto@, addrs, all.take(i as int)) == Ok::<Draft, Fault>(d@),
        decreases instrs.len() - i,
    {
        proof {
            assert(all.take(i + 1).drop_last() =~= all.take(i as int));
            assert(all.take(i + 1).last() == instrs@[i as int]@);
        }
        match advance(proto, addresses, d, &instrs[i]) {
            Ok(next) => {
                d = next;
            },
            Err(e) => {
                proof {
                    lemma_fault_stays(proto@, addrs, all, i + 1);
                }
                return Err(e);
            },
        }
        i = i + 1;
    }
    assert(all.take(instrs.len() as int) =~= all);
    finish(proto, addresses, d)
}

} // verus!
