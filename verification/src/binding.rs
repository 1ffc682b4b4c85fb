//! A function of the description, read: its prototype and its pattern
//! instructions, with the modules it belongs to.

use crate::error::agrees;
use crate::error::Fault;
use crate::model::view_opt;
use crate::model::Func;
use crate::model::FuncView;
use crate::pattern::read;
use crate::pattern::Instruction;
use crate::prototype::parse;
use crate::prototype::Prototype;
use crate::prototype::PrototypeView;
use crate::text::views;
use vstd::prelude::*;

verus! {

/// A prototype with its pattern instructions, in order, the modules that
/// the function is a member of, and its documentation.
#[derive(Debug, Clone, PartialEq, Eq)]
pub struct FunctionBinding {
    pub proto: Prototype,
    pub pats: Vec<Instruction<String>>,
    pub modules: Vec<String>,
    pub doc: Option<String>,
}

pub struct FunctionBindingView {
    pub proto: PrototypeView,
    pub pats: Seq<Instruction<Seq<char>>>,
    pub modules: Seq<Seq<char>>,
    pub doc: Option<Seq<char>>,
}

impl View for FunctionBinding {
    type V = FunctionBindingView;

    open spec fn view(&self) -> FunctionBindingView {
        FunctionBindingView {
            proto: self.proto@,
            pats: views(self.pats@),
            modules: views(self.modules@),
            doc: view_opt(self.doc),
        }
    }
}

/// The instructions that `texts` write, or the fault of the first text that
/// writes none.
pub open spec fn read_all(texts: Seq<Seq<char>>) -> Result<Seq<Instruction<Seq<char>>>, Fault>
    decreases texts.len(),
{
    if texts.len() == 0 {
        Ok(Seq::empty())
    } else {
        match read_all(texts.drop_last()) {
            Ok(init) => match read(texts.last()) {
                Ok(ins) => Ok(init.push(ins)),
                Err(e) => Err(e),
            },
            Err(e) => Err(e),
        }
    }
}

/// The function `func`, read: the fault of its prototype if that has one,
/// else the fault of its first instruction that has one, else the binding.
pub open spec fn bound(func: FuncView) -> Result<FunctionBindingView, Fault> {
    match parse(func.def) {
        Ok(proto) => match read_all(func.pat) {
            Ok(pats) => Ok(FunctionBindingView { proto, pats, modules: func.modules, doc: func.doc }),
            Err(e) => Err(e),
        },
        Err(e) => Err(e),
    }
}

/// The functions `funcs`, read, or the fault of the first that has one.
pub open spec fn bound_all(funcs: Seq<FuncView>) -> Result<Seq<FunctionBindingView>, Fault>
    decreases funcs.len(),
{
    if funcs.len() == 0 {
        Ok(Seq::empty())
    } else {
        match bound_all(funcs.drop_last()) {
            Ok(init) => match bound(funcs.last()) {
                Ok(b) => Ok(init.push(b)),
                Err(e) => Err(e),
            },
            Err(e) => Err(e),
        }
    }
}

/// A fault among the first texts is the fault of them all.
proof fn lemma_read_fault(texts: Seq<Seq<char>>, k: int)
    requires
        0 <= k <= texts.len(),
        read_all(texts.take(k)) is Err,
    ensures
        read_all(texts) == read_all(texts.take(k)),
    decreases texts.len() - k,
{
    if k < texts.len() {
        assert(texts.take(k + 1).drop_last() =~= texts.take(k));
        lemma_read_fault(texts, k + 1);
    } else {
        assert(texts.take(k) =~= texts);
    }
}

/// A fault among the first functions is the fault of them all.
proof fn lemma_bound_fault(funcs: Seq<FuncView>, k: int)
    requires
        0 <= k <= funcs.len(),
        bound_all(funcs.take(k)) is Err,
    ensures
        bound_all(funcs) == bound_all(funcs.take(k)),
    decreases funcs.len() - k,
{
    if k < funcs.len() {
        assert(funcs.take(k + 1).drop_last() =~= funcs.take(k));
        lemma_bound_fault(funcs, k + 1);
    } else {
        assert(funcs.take(k) =~= funcs);
    }
}

/// A copy of `v`.
pub fn copy_strings(v: &Vec<String>) -> (r: Vec<String>)
    ensures
        views(r@) == views(v@),
{
    let mut r: Vec<String> = Vec::new();
    let mut i: usize = 0;
    while i < v.len()
        invariant
            i <= v.len(),
            r.len() == i,
            forall|j: int| 0 <= j < i ==> (#[trigger] r@[j])@ == v@[j]@,
        decreases v.len() - i,
    {
        r.push(v[i].clone());
        i = i + 1;
    }
    assert(views(r@) =~= views(v@));
    r
}

/// A copy of `o`.
pub fn copy_opt(o: &Option<String>) -> (r: Option<String>)
    ensures
        view_opt(r) == view_opt(*o),
{
    match o {
        Some(s) => Some(s.clone()),
        None => None,
    }
}

/// Reads the instructions that `texts` write.
pub fn parse_all(texts: &Vec<String>) -> (r: Result<Vec<Instruction<String>>, Fault>)
    ensures
        match read_all(views(texts@)) {
            Ok(v) => r is Ok && views(r->Ok_0@) == v,
            Err(e) => r is Err && r->Err_0 == e,
        },
{
    let ghost all = views(texts@);
    let mut out: Vec<Instruction<String>> = Vec::new();
    let mut i: usize = 0;
    assert(all.take(0) =~= Seq::<Seq<char>>::empty());
    assert(views(out@) =~= Seq::<Instruction<Seq<char>>>::empty());
    while i < texts.len()
        invariant
            i <= texts.len(),
            all == views(texts@),
            read_all(all.take(i as int)) == Ok::<Seq<Instruction<Seq<char>>>, Fault>(views(out@)),
        decreases texts.len() - i,
    {
        proof {
            assert(all.take(i + 1).drop_last() =~= all.take(i as int));
            assert(all.take(i + 1).last() == texts@[i as int]@);
        }
        let ghost before = views(out@);
        match Instruction::parse(texts[i].as_str()) {
            Ok(ins) => {
                out.push(ins);
                assert(views(out@) =~= before.push(ins@));
            },
            Err(e) => {
                proof {
                    lemma_read_fault(all, i + 1);
                }
                return Err(e);
            },
        }
        i = i + 1;
    }
    assert(all.take(texts.len() as int) =~= all);
    Ok(out)
}

impl FunctionBinding {
    /// Reads the function `func`.
    pub fn new(func: &Func) -> (r: Result<FunctionBinding, Fault>)
        ensures
            agrees(r, bound(func@)),
    {
        let proto = match Prototype::from_str(func.def.as_str()) {
            Ok(p) => p,
            Err(e) => {
                return Err(e);
            },
        };
        let pats = match parse_all(&func.pat) {
            Ok(p) => p,
            Err(e) => {
                return Err(e);
            },
        };
        Ok(
            FunctionBinding {
                proto,
                pats,
                modules: copy_strings(&func.modules),
                doc: copy_opt(&func.doc),
            },
        )
    }
}

/// Reads the functions `funcs`.
pub fn bind_all(funcs: &Vec<Func>) -> (r: Result<Vec<FunctionBinding>, Fault>)
    ensures
        match bound_all(views(funcs@)) {
            Ok(v) => r is Ok && views(r->Ok_0@) == v,
            Err(e) => r is Err && r->Err_0 == e,
        },
{
    let ghost all = views(funcs@);
    let mut out: Vec<FunctionBinding> = Vec::new();
    let mut i: usize = 0;
    assert(all.take(0) =~= Seq::<FuncView>::empty());
    assert(views(out@) =~= Seq::<FunctionBindingView>::empty());
    while i < funcs.len()
        invariant
            i <= funcs.len(),
            all == views(funcs@),
            bound_all(all.take(i as int)) == Ok::<Seq<FunctionBindingView>, Fault>(views(out@)),
        decreases funcs.len() - i,
    {
        proof {
            assert(all.take(i + 1).drop_last() =~= all.take(i as int));
            assert(all.take(i + 1).last() == funcs@[i as int]@);
        }
        let ghost before = views(out@);
        match FunctionBinding::new(&funcs[i]) {
            Ok(b) => {
                out.push(b);
                assert(views(out@) =~= before.push(b@));
            },
            Err(e) => {
                proof {
                    lemma_bound_fault(all, i + 1);
                }
                return Err(e);
            },
        }
        i = i + 1;
    }
    assert(all.take(funcs.len() as int) =~= all);
    Ok(out)
}

} // verus!
