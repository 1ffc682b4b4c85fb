//! What holds of every interpretation: which positions of the raw call are
//! filled, and how many success checks a function may carry.

use crate::error::Fault;
use crate::interpreter::complete;
use crate::interpreter::drafted;
use crate::interpreter::interpretation;
use crate::interpreter::step;
use crate::interpreter::Draft;
use crate::interpreter::SafeFunctionView;
use crate::pattern::Instruction;
use crate::prototype::lemma_position;
use crate::prototype::position;
use crate::prototype::PrototypeView;
use vstd::prelude::*;

verus! {

/// The position of the parameter called `name`, as a set: empty where the
/// prototype has no such parameter.
pub open spec fn target(proto: PrototypeView, name: Seq<char>) -> Set<int> {
    match position(proto.pars, name) {
        Some(i) => set![i],
        None => Set::empty(),
    }
}

/// The positions of the raw call that the instruction `ins` fills. `OK`
/// and `OUT` fill none.
pub open spec fn targets(proto: PrototypeView, ins: Instruction<Seq<char>>) -> Set<int> {
    match ins {
        Instruction::New(p) => target(proto, p),
        Instruction::Str(p) => target(proto, p),
        Instruction::Raw(p) => target(proto, p),
        Instruction::Val(p) => target(proto, p),
        Instruction::Check(_, _) => Set::empty(),
        Instruction::Mut(p) => target(proto, p),
        Instruction::OptMut(p) => target(proto, p),
        Instruction::Old(p) => target(proto, p),
        Instruction::Slice(len, p) => target(proto, len).union(target(proto, p)),
        Instruction::Out(_) => Set::empty(),
        Instruction::OutVec(len, p, _) => target(proto, len).union(target(proto, p)),
    }
}

/// The positions of the raw call that the instructions `instrs` fill.
pub open spec fn filled(proto: PrototypeView, instrs: Seq<Instruction<Seq<char>>>) -> Set<int> {
    Set::new(|i: int| exists|k: int| 0 <= k < instrs.len() && targets(proto, #[trigger] instrs[k]).contains(i))
}

/// Every position of the raw call.
pub open spec fn positions(proto: PrototypeView) -> Set<int> {
    Set::new(|i: int| 0 <= i < proto.pars.len())
}

/// How many of the instructions are success checks.
pub open spec fn checks(instrs: Seq<Instruction<Seq<char>>>) -> nat
    decreases instrs.len(),
{
    if instrs.len() == 0 {
        0
    } else {
        checks(instrs.drop_last()) + if instrs.last() is Check {
            1nat
        } else {
            0nat
        }
    }
}

/// An instruction that is taken without fault fills exactly its targets,
/// none of which was filled before, and is a duplicate check only as a
/// second check.
proof fn lemma_step(
    proto: PrototypeView,
    addresses: Seq<Seq<char>>,
    d: Draft,
    ins: Instruction<Seq<char>>,
)
    requires
        d.slots.len() == proto.pars.len(),
    ensures
        match step(proto, addresses, d, ins) {
            Ok(e) => {
                &&& e.slots.len() == d.slots.len()
                &&& targets(proto, ins).subset_of(positions(proto))
                &&& forall|i: int|
                    0 <= i < d.slots.len() ==> ((#[trigger] e.slots[i]) is Some <==> d.slots[i] is Some
                        || targets(proto, ins).contains(i))
                &&& forall|i: int|
                    0 <= i < d.slots.len() && targets(proto, ins).contains(i) ==> (
                    #[trigger] d.slots[i]) is None
                &&& e.checked == (d.checked || ins is Check)
                &&& ins is Check ==> !d.checked
            },
            Err(f) => f == Fault::DuplicateErrorCheck ==> ins is Check && d.checked,
        },
{
    match ins {
        Instruction::New(p) => {
            lemma_position(proto.pars, p);
        },
        Instruction::Str(p) => {
            lemma_position(proto.pars, p);
        },
        Instruction::Raw(p) => {
            lemma_position(proto.pars, p);
        },
        Instruction::Val(p) => {
            lemma_position(proto.pars, p);
        },
        Instruction::Check(_, _) => {},
        Instruction::Mut(p) => {
            lemma_position(proto.pars, p);
        },
        Instruction::OptMut(p) => {
            lemma_position(proto.pars, p);
        },
        Instruction::Old(p) => {
            lemma_position(proto.pars, p);
        },
        Instruction::Slice(len, p) => {
            lemma_position(proto.pars, p);
            lemma_position(proto.pars, len);
        },
        Instruction::Out(Some(p)) => {
            lemma_position(proto.pars, p);
        },
        Instruction::Out(None) => {},
        Instruction::OutVec(len, p, _) => {
            lemma_position(proto.pars, p);
            lemma_position(proto.pars, len);
        },
    }
}

/// After instructions that are taken without fault, a position is filled
/// exactly if one of them targets it; each instruction found its targets
/// unfilled; and there is at most one success check among them.
pub proof fn lemma_drafted(
    proto: PrototypeView,
    addresses: Seq<Seq<char>>,
    instrs: Seq<Instruction<Seq<char>>>,
)
    ensures
        match drafted(proto, addresses, instrs) {
            Ok(d) => {
                &&& d.slots.len() == proto.pars.len()
                &&& filled(proto, instrs).subset_of(positions(proto))
                &&& forall|i: int|
                    0 <= i < d.slots.len() ==> ((#[trigger] d.slots[i]) is Some <==> filled(
                        proto,
                        instrs,
                    ).contains(i))
                &&& forall|k: int, i: int|
                    0 <= k < instrs.len() && #[trigger] targets(proto, instrs[k]).contains(i)
                        ==> !(#[trigger] filled(proto, instrs.take(k)).contains(i))
                &&& checks(instrs) <= 1
                &&& d.checked == (checks(instrs) == 1)
            },
            Err(f) => f == Fault::DuplicateErrorCheck ==> checks(instrs) >= 2,
        },
    decreases instrs.len(),
{
    if instrs.len() > 0 {
        let init = instrs.drop_last();
        let last = instrs.last();
        lemma_drafted(proto, addresses, init);
        match drafted(proto, addresses, init) {
            Ok(d0) => {
                lemma_step(proto, addresses, d0, last);
                match step(proto, addresses, d0, last) {
                    Ok(d) => {
                        assert(instrs[instrs.len() - 1] == last);
                        assert forall|i: int| filled(proto, instrs).contains(i) <==> filled(
                            proto,
                            init,
                        ).contains(i) || targets(proto, last).contains(i) by {
                            if filled(proto, instrs).contains(i) {
                                let k = choose|k: int|
                                    0 <= k < instrs.len() && targets(
                                        proto,
                                        #[trigger] instrs[k],
                                    ).contains(i);
                                if k < init.len() {
                                    assert(init[k] == instrs[k]);
                                }
                            }
                            if filled(proto, init).contains(i) {
                                let k = choose|k: int|
                                    0 <= k < init.len() && targets(
                                        proto,
                                        #[trigger] init[k],
                                    ).contains(i);
                                assert(instrs[k] == init[k]);
                            }
                        }
                        assert forall|k: int, i: int|
                            0 <= k < instrs.len() && #[trigger] targets(proto, instrs[k]).contains(
                                i,
                            ) implies !(#[trigger] filled(proto, instrs.take(k)).contains(i)) by {
                            if k < init.len() {
                                assert(init[k] == instrs[k]);
                                assert(init.take(k) =~= instrs.take(k));
                            } else {
                                assert(instrs.take(k) =~= init);
                                assert(d0.slots[i] is None);
                            }
                        }
                    },
                    Err(_) => {},
                }
            },
            Err(_) => {},
        }
    } else {
        let d = drafted(proto, addresses, instrs)->Ok_0;
        assert forall|i: int| 0 <= i < d.slots.len() implies !filled(proto, instrs).contains(i) by {}
    }
}

/// A function is generated only if its instructions fill every position of
/// the raw call, and then they fill nothing else and the call has an
/// argument for each parameter of the prototype. Where no instruction is at
/// fault and yet a position is left unfilled, the fault is
/// `UnboundParameter`.
pub proof fn lemma_coverage(
    proto: PrototypeView,
    addresses: Seq<Seq<char>>,
    instrs: Seq<Instruction<Seq<char>>>,
)
    ensures
        match interpretation(proto, addresses, instrs) {
            Ok(f) => filled(proto, instrs) == positions(proto) && f.args.len() == proto.pars.len(),
            Err(e) => drafted(proto, addresses, instrs) is Ok ==> e == Fault::UnboundParameter
                && filled(proto, instrs) != positions(proto),
        },
{
    lemma_drafted(proto, addresses, instrs);
    match drafted(proto, addresses, instrs) {
        Ok(d) => {
            if complete(d) {
                assert forall|i: int| positions(proto).contains(i) implies filled(
                    proto,
                    instrs,
                ).contains(i) by {
                    assert(d.slots[i] is Some);
                }
                assert(filled(proto, instrs) =~= positions(proto));
            } else {
                let i = choose|i: int| 0 <= i < d.slots.len() && !((#[trigger] d.slots[i]) is Some);
                assert(positions(proto).contains(i));
                assert(!filled(proto, instrs).contains(i));
            }
        },
        Err(_) => {},
    }
}

/// Where a function is generated, no position of the raw call is targeted
/// twice: what an instruction targets, no instruction before it targets.
pub proof fn lemma_filled_once(
    proto: PrototypeView,
    addresses: Seq<Seq<char>>,
    instrs: Seq<Instruction<Seq<char>>>,
    j: int,
    k: int,
    i: int,
)
    requires
        interpretation(proto, addresses, instrs) is Ok,
        0 <= j < k < instrs.len(),
        targets(proto, instrs[k]).contains(i),
    ensures
        !targets(proto, instrs[j]).contains(i),
{
    lemma_drafted(proto, addresses, instrs);
    assert(!filled(proto, instrs.take(k)).contains(i));
    assert(instrs.take(k)[j] == instrs[j]);
}

/// A function fails with `DuplicateErrorCheck` only if it carries two or
/// more success checks; with two or more it is never generated; with none
/// or one it never fails with `DuplicateErrorCheck`.
pub proof fn lemma_one_check(
    proto: PrototypeView,
    addresses: Seq<Seq<char>>,
    instrs: Seq<Instruction<Seq<char>>>,
)
    ensures
        checks(instrs) >= 2 ==> interpretation(proto, addresses, instrs) is Err,
        checks(instrs) <= 1 ==> interpretation(proto, addresses, instrs) != Err::<SafeFunctionView, Fault>(
            Fault::DuplicateErrorCheck,
        ),
{
    lemma_drafted(proto, addresses, instrs);
}

/// A second success check is `DuplicateErrorCheck`, whatever follows it,
/// where no instruction before it is at fault.
pub proof fn lemma_second_check(
    proto: PrototypeView,
    addresses: Seq<Seq<char>>,
    instrs: Seq<Instruction<Seq<char>>>,
    k: int,
)
    requires
        0 <= k < instrs.len(),
        instrs[k] is Check,
        checks(instrs.take(k)) >= 1,
        drafted(proto, addresses, instrs.take(k)) is Ok,
    ensures
        interpretation(proto, addresses, instrs) == Err::<SafeFunctionView, Fault>(Fault::DuplicateErrorCheck),
{
    let upto = instrs.take(k + 1);
    assert(upto.drop_last() =~= instrs.take(k));
    assert(upto.last() == instrs[k]);
    lemma_drafted(proto, addresses, instrs.take(k));
    assert(drafted(proto, addresses, upto) == Err::<Draft, Fault>(Fault::DuplicateErrorCheck));
    lemma_fault_stays(proto, addresses, instrs, k + 1);
}

/// A fault among the first instructions is the fault of them all.
pub proof fn lemma_fault_stays(
    proto: PrototypeView,
    addresses: Seq<Seq<char>>,
    instrs: Seq<Instruction<Seq<char>>>,
    k: int,
)
    requires
        0 <= k <= instrs.len(),
        drafted(proto, addresses, instrs.take(k)) is Err,
    ensures
        drafted(proto, addresses, instrs) == drafted(proto, addresses, instrs.take(k)),
    decreases instrs.len() - k,
{
    if k < instrs.len() {
        assert(instrs.take(k + 1).drop_last() =~= instrs.take(k));
        lemma_fault_stays(proto, addresses, instrs, k + 1);
    } else {
        assert(instrs.take(k) =~= instrs);
    }
}

} // verus!
