//! The module assembler: which functions each module holds.
//!
//! A function that belongs to several modules is a member of each, and every
//! membership has a slot of its own for the symbol that the module resolves.
//! Modules are kept sorted by name.

use crate::binding::FunctionBinding;
use crate::binding::FunctionBindingView;
use crate::text::chars_of;
use crate::text::same_text;
use crate::text::views;
use vstd::prelude::*;

verus! {

/// A membership: the function at index `func` of the description, with the
/// slot `slot` for its resolved symbol.
#[derive(Debug, Copy, Clone, PartialEq, Eq, Structural)]
pub struct Member {
    pub slot: usize,
    pub func: usize,
}

/// A module: its name and its members, in the order in which they joined.
#[derive(Debug, Clone, PartialEq, Eq)]
pub struct Module {
    pub name: String,
    pub members: Vec<Member>,
}

pub struct ModuleView {
    pub name: Seq<char>,
    pub members: Seq<Member>,
}

impl View for Module {
    type V = ModuleView;

    open spec fn view(&self) -> ModuleView {
        ModuleView { name: self.name@, members: self.members@ }
    }
}

/// The modules of a description, sorted by name, and for each slot the
/// function that it belongs to.
#[derive(Debug, Clone, PartialEq, Eq)]
pub struct Assembly {
    pub slots: Vec<usize>,
    pub modules: Vec<Module>,
}

pub struct AssemblyView {
    pub slots: Seq<usize>,
    pub modules: Seq<ModuleView>,
}

impl View for Assembly {
    type V = AssemblyView;

    open spec fn view(&self) -> AssemblyView {
        AssemblyView { slots: self.slots@, modules: views(self.modules@) }
    }
}

/// Whether `a` comes before `b` in the order of strings: at the first
/// position where they differ `a` has the smaller character, or `a` ends
/// there and `b` does not.
pub open spec fn precedes(a: Seq<char>, b: Seq<char>) -> bool
    decreases a.len(),
{
    if b.len() == 0 {
        false
    } else if a.len() == 0 {
        true
    } else if a[0] != b[0] {
        a[0] < b[0]
    } else {
        precedes(a.drop_first(), b.drop_first())
    }
}

/// Whether the modules are in the order of their names, no name twice.
pub open spec fn sorted(mods: Seq<ModuleView>) -> bool {
    forall|i: int, j: int|
        0 <= i < j < mods.len() ==> precedes((#[trigger] mods[i]).name, (#[trigger] mods[j]).name)
}

/// How many modules at the front of `mods` have a name that comes before
/// `name`.
pub open spec fn rank(mods: Seq<ModuleView>, name: Seq<char>) -> nat
    decreases mods.len(),
{
    if mods.len() == 0 || !precedes(mods[0].name, name) {
        0
    } else {
        1 + rank(mods.drop_first(), name)
    }
}

/// The modules after `member` has joined the module called `name`: the
/// module gets the member behind those it has, or, where there is no such
/// module yet, it comes to stand where its name belongs.
pub open spec fn placed(mods: Seq<ModuleView>, name: Seq<char>, member: Member) -> Seq<
    ModuleView,
> {
    let k = rank(mods, name) as int;
    if k < mods.len() && mods[k].name == name {
        mods.update(k, ModuleView { name, members: mods[k].members.push(member) })
    } else {
        mods.insert(k, ModuleView { name, members: seq![member] })
    }
}

/// The memberships that the functions ask for, as module name and index of
/// the function: function by function, and for each function in the order
/// of its module list.
pub open spec fn placements(bindings: Seq<FunctionBindingView>) -> Seq<(Seq<char>, int)>
    decreases bindings.len(),
{
    if bindings.len() == 0 {
        Seq::empty()
    } else {
        placements(bindings.drop_last()) + row(bindings.last().modules, bindings.len() - 1)
    }
}

/// The memberships that one function asks for.
pub open spec fn row(modules: Seq<Seq<char>>, func: int) -> Seq<(Seq<char>, int)> {
    Seq::new(modules.len(), |j: int| (modules[j], func))
}

/// The modules after the memberships `asked` have been granted in order,
/// each with its position in `asked` as its slot.
pub open spec fn assembled(asked: Seq<(Seq<char>, int)>) -> Seq<ModuleView>
    decreases asked.len(),
{
    if asked.len() == 0 {
        Seq::empty()
    } else {
        placed(
            assembled(asked.drop_last()),
            asked.last().0,
            Member { slot: (asked.len() - 1) as usize, func: asked.last().1 as usize },
        )
    }
}

/// The function of each slot.
pub open spec fn slot_funcs(asked: Seq<(Seq<char>, int)>) -> Seq<usize> {
    Seq::new(asked.len(), |k: int| asked[k].1 as usize)
}

/// Whether every member is a function of a description with `funcs`
/// functions.
pub open spec fn members_within(members: Seq<Member>, funcs: nat) -> bool {
    forall|k: int| 0 <= k < members.len() ==> (#[trigger] members[k]).func < funcs
}

/// Whether every member of every module is a function of a description with
/// `funcs` functions.
pub open spec fn modules_within(mods: Seq<ModuleView>, funcs: nat) -> bool {
    forall|m: int| 0 <= m < mods.len() ==> members_within((#[trigger] mods[m]).members, funcs)
}

/// A member that joins brings no function from outside the description.
pub proof fn lemma_placed_within(
    mods: Seq<ModuleView>,
    name: Seq<char>,
    member: Member,
    funcs: nat,
)
    requires
        modules_within(mods, funcs),
        member.func < funcs,
    ensures
        modules_within(placed(mods, name, member), funcs),
{
    let k = rank(mods, name) as int;
    lemma_rank(mods, name);
    let after = placed(mods, name, member);
    assert forall|m: int| 0 <= m < after.len() implies members_within(
        (#[trigger] after[m]).members,
        funcs,
    ) by {
        if k < mods.len() && mods[k].name == name {
            if m == k {
                assert(members_within(mods[k].members, funcs));
            } else {
                assert(after[m] == mods[m]);
            }
        } else {
            if m < k {
                assert(after[m] == mods[m]);
            } else if m > k {
                assert(after[m] == mods[m - 1]);
            }
        }
    }
}

/// `rank` stops at the first module whose name does not come before `name`.
pub proof fn lemma_rank(mods: Seq<ModuleView>, name: Seq<char>)
    ensures
        rank(mods, name) <= mods.len(),
        forall|j: int| 0 <= j < rank(mods, name) ==> precedes((#[trigger] mods[j]).name, name),
        rank(mods, name) < mods.len() ==> !precedes(mods[rank(mods, name) as int].name, name),
    decreases mods.len(),
{
    if mods.len() == 0 || !precedes(mods[0].name, name) {
    } else {
        let t = mods.drop_first();
        lemma_rank(t, name);
        assert forall|j: int| 0 <= j < rank(mods, name) implies precedes(
            (#[trigger] mods[j]).name,
            name,
        ) by {
            if j > 0 {
                assert(mods[j] == t[j - 1]);
            }
        }
        if rank(mods, name) < mods.len() {
            assert(mods[rank(mods, name) as int] == t[rank(t, name) as int]);
        }
    }
}

/// Any position with the properties of `lemma_rank` is `rank`.
pub proof fn lemma_rank_is(mods: Seq<ModuleView>, name: Seq<char>, k: nat)
    requires
        k <= mods.len(),
        forall|j: int| 0 <= j < k ==> precedes((#[trigger] mods[j]).name, name),
        k < mods.len() ==> !precedes(mods[k as int].name, name),
    ensures
        rank(mods, name) == k,
    decreases mods.len(),
{
    if mods.len() == 0 {
    } else if !precedes(mods[0].name, name) {
        if k > 0 {
            assert(precedes(mods[0].name, name));
        }
    } else {
        let t = mods.drop_first();
        assert(k > 0);
        assert forall|j: int| 0 <= j < k - 1 implies precedes((#[trigger] t[j]).name, name) by {
            assert(t[j] == mods[j + 1]);
        }
        if k < mods.len() {
            assert(t[k - 1] == mods[k as int]);
        }
        lemma_rank_is(t, name, (k - 1) as nat);
    }
}

/// No string comes before itself.
pub proof fn lemma_precedes_irreflexive(a: Seq<char>)
    ensures
        !precedes(a, a),
    decreases a.len(),
{
    if a.len() > 0 {
        lemma_precedes_irreflexive(a.drop_first());
    }
}

/// Of two different strings one comes before the other.
pub proof fn lemma_precedes_total(a: Seq<char>, b: Seq<char>)
    ensures
        a == b || precedes(a, b) || precedes(b, a),
    decreases a.len(),
{
    if a.len() == 0 || b.len() == 0 {
        if a.len() == 0 && b.len() == 0 {
            assert(a =~= b);
        }
    } else if a[0] == b[0] {
        lemma_precedes_total(a.drop_first(), b.drop_first());
        if a.drop_first() == b.drop_first() {
            assert(a =~= seq![a[0]] + a.drop_first());
            assert(b =~= seq![b[0]] + b.drop_first());
        }
    }
}

/// What comes before a string comes before all that the string comes
/// before.
pub proof fn lemma_precedes_transitive(a: Seq<char>, b: Seq<char>, c: Seq<char>)
    requires
        precedes(a, b),
        precedes(b, c),
    ensures
        precedes(a, c),
    decreases a.len(),
{
    if a.len() > 0 && a[0] == b[0] && b[0] == c[0] {
        lemma_precedes_transitive(a.drop_first(), b.drop_first(), c.drop_first());
    }
}

/// A member that joins leaves the modules in the order of their names.
pub proof fn lemma_placed_sorted(mods: Seq<ModuleView>, name: Seq<char>, member: Member)
    requires
        sorted(mods),
    ensures
        sorted(placed(mods, name, member)),
{
    let k = rank(mods, name) as int;
    lemma_rank(mods, name);
    let after = placed(mods, name, member);
    if k < mods.len() && mods[k].name == name {
        assert forall|i: int, j: int| 0 <= i < j < after.len() implies precedes(
            (#[trigger] after[i]).name,
            (#[trigger] after[j]).name,
        ) by {
            assert(after[i].name == mods[i].name);
            assert(after[j].name == mods[j].name);
        }
    } else {
        assert forall|i: int, j: int| 0 <= i < j < after.len() implies precedes(
            (#[trigger] after[i]).name,
            (#[trigger] after[j]).name,
        ) by {
            if j < k {
                assert(after[i] == mods[i] && after[j] == mods[j]);
            } else if j == k {
                assert(after[i] == mods[i]);
            } else if i == k {
                assert(after[j] == mods[j - 1]);
                lemma_precedes_total(name, mods[k].name);
                if j - 1 > k {
                    assert(precedes(mods[k].name, mods[j - 1].name));
                    lemma_precedes_transitive(name, mods[k].name, mods[j - 1].name);
                }
            } else if i < k {
                assert(after[i] == mods[i] && after[j] == mods[j - 1]);
            } else {
                assert(after[i] == mods[i - 1] && after[j] == mods[j - 1]);
            }
        }
    }
}

/// Whether some module has a member with the slot `s`.
pub open spec fn held(mods: Seq<ModuleView>, s: int) -> bool {
    exists|m: int, k: int|
        0 <= m < mods.len() && 0 <= k < mods[m].members.len() && (
        #[trigger] mods[m].members[k]).slot == s
}

/// Whether the modules hold exactly the memberships `asked`, each once and
/// in the module that it asked for, with its position in `asked` as its
/// slot, and each module its members in the order of their slots.
pub open spec fn holds(mods: Seq<ModuleView>, asked: Seq<(Seq<char>, int)>) -> bool {
    &&& forall|m: int, k: int|
        0 <= m < mods.len() && 0 <= k < mods[m].members.len() ==> {
            let member = #[trigger] mods[m].members[k];
            &&& member.slot < asked.len()
            &&& asked[member.slot as int].0 == mods[m].name
            &&& asked[member.slot as int].1 == member.func
        }
    &&& forall|m: int, j: int, k: int|
        0 <= m < mods.len() && 0 <= j < k < mods[m].members.len() ==> (
        #[trigger] mods[m].members[j]).slot < (#[trigger] mods[m].members[k]).slot
    &&& forall|s: int| 0 <= s < asked.len() ==> #[trigger] held(mods, s)
    &&& forall|m: int| 0 <= m < mods.len() ==> (#[trigger] mods[m]).members.len() > 0
}

/// Whether slots and function indices fit the machine's integers.
pub open spec fn fits(asked: Seq<(Seq<char>, int)>) -> bool {
    &&& asked.len() <= usize::MAX
    &&& forall|s: int| 0 <= s < asked.len() ==> 0 <= (#[trigger] asked[s]).1 <= usize::MAX
}

/// A membership that is granted is held, and those held before stay.
proof fn lemma_placed_holds(mods: Seq<ModuleView>, asked: Seq<(Seq<char>, int)>)
    requires
        asked.len() > 0,
        fits(asked),
        sorted(mods),
        holds(mods, asked.drop_last()),
    ensures
        holds(
            placed(
                mods,
                asked.last().0,
                Member { slot: (asked.len() - 1) as usize, func: asked.last().1 as usize },
            ),
            asked,
        ),
{
    let init = asked.drop_last();
    let name = asked.last().0;
    let n = asked.len() - 1;
    let member = Member { slot: n as usize, func: asked.last().1 as usize };
    let k = rank(mods, name) as int;
    lemma_rank(mods, name);
    let after = placed(mods, name, member);
    let joins = k < mods.len() && mods[k].name == name;
    assert(asked[n] == asked.last());
    // Where each module of `after` comes from.
    assert forall|m: int| 0 <= m < after.len() implies (#[trigger] after[m]).members.len() > 0 by {
        if joins {
            if m != k {
                assert(after[m] == mods[m]);
            }
        } else {
            if m < k {
                assert(after[m] == mods[m]);
            } else if m > k {
                assert(after[m] == mods[m - 1]);
            }
        }
    }
    assert forall|m: int, j: int|
        0 <= m < after.len() && 0 <= j < after[m].members.len() implies {
        let x = #[trigger] after[m].members[j];
        &&& x.slot < asked.len()
        &&& asked[x.slot as int].0 == after[m].name
        &&& asked[x.slot as int].1 == x.func
        &&& (x.slot == n <==> m == k && j == after[m].members.len() - 1)
    } by {
        let x = after[m].members[j];
        if joins {
            if m == k {
                if j < mods[k].members.len() {
                    assert(x == mods[k].members[j]);
                    assert(asked[x.slot as int] == init[x.slot as int]);
                }
            } else {
                assert(after[m] == mods[m]);
                assert(x == mods[m].members[j]);
                assert(asked[x.slot as int] == init[x.slot as int]);
            }
        } else {
            if m < k {
                assert(after[m] == mods[m]);
                assert(x == mods[m].members[j]);
                assert(asked[x.slot as int] == init[x.slot as int]);
            } else if m > k {
                assert(after[m] == mods[m - 1]);
                assert(x == mods[m - 1].members[j]);
                assert(asked[x.slot as int] == init[x.slot as int]);
            }
        }
    }
    assert forall|m: int, i: int, j: int|
        0 <= m < after.len() && 0 <= i < j < after[m].members.len() implies (
    #[trigger] after[m].members[i]).slot < (#[trigger] after[m].members[j]).slot by {
        if joins {
            if m == k {
                assert(after[m].members[i] == mods[k].members[i]);
                if j < mods[k].members.len() {
                    assert(after[m].members[j] == mods[k].members[j]);
                }
            } else {
                assert(after[m] == mods[m]);
            }
        } else {
            if m < k {
                assert(after[m] == mods[m]);
            } else if m > k {
                assert(after[m] == mods[m - 1]);
            }
        }
    }
    assert forall|s: int| 0 <= s < asked.len() implies #[trigger] held(after, s) by {
        if s == n {
            let last = after[k].members.len() - 1;
            assert(after[k].members[last].slot == s);
        } else {
            assert(held(mods, s));
            let (m, j) = choose|m: int, j: int|
                0 <= m < mods.len() && 0 <= j < mods[m].members.len() && (
                #[trigger] mods[m].members[j]).slot == s;
            if joins {
                if m == k {
                    assert(after[k].members[j] == mods[k].members[j]);
                } else {
                    assert(after[m] == mods[m]);
                    assert(after[m].members[j].slot == s);
                }
            } else {
                if m < k {
                    assert(after[m] == mods[m]);
                    assert(after[m].members[j].slot == s);
                } else {
                    assert(after[m + 1] == mods[m]);
                    assert(after[m + 1].members[j].slot == s);
                }
            }
        }
    }
}

/// The assembled modules are in the order of their names, no name twice,
/// and hold exactly the memberships that were asked for.
pub proof fn lemma_assembled(asked: Seq<(Seq<char>, int)>)
    requires
        fits(asked),
    ensures
        sorted(assembled(asked)),
        holds(assembled(asked), asked),
    decreases asked.len(),
{
    if asked.len() > 0 {
        let init = asked.drop_last();
        assert forall|s: int| 0 <= s < init.len() implies 0 <= (#[trigger] init[s]).1
            <= usize::MAX by {
            assert(init[s] == asked[s]);
        }
        lemma_assembled(init);
        let member = Member { slot: (asked.len() - 1) as usize, func: asked.last().1 as usize };
        lemma_placed_sorted(assembled(init), asked.last().0, member);
        lemma_placed_holds(assembled(init), asked);
    }
}

/// No two memberships share a slot.
pub proof fn lemma_slots_distinct(
    asked: Seq<(Seq<char>, int)>,
    m1: int,
    k1: int,
    m2: int,
    k2: int,
)
    requires
        fits(asked),
        0 <= m1 < assembled(asked).len(),
        0 <= k1 < assembled(asked)[m1].members.len(),
        0 <= m2 < assembled(asked).len(),
        0 <= k2 < assembled(asked)[m2].members.len(),
        m1 != m2 || k1 != k2,
    ensures
        assembled(asked)[m1].members[k1].slot != assembled(asked)[m2].members[k2].slot,
{
    let mods = assembled(asked);
    lemma_assembled(asked);
    let a = mods[m1].members[k1];
    let b = mods[m2].members[k2];
    if m1 == m2 {
        if k1 < k2 {
            assert(a.slot < b.slot);
        } else {
            assert(b.slot < a.slot);
        }
    } else {
        lemma_precedes_irreflexive(mods[m1].name);
        if m1 < m2 {
            assert(precedes(mods[m1].name, mods[m2].name));
        } else {
            assert(precedes(mods[m2].name, mods[m1].name));
        }
        assert(asked[a.slot as int].0 == mods[m1].name);
        assert(asked[b.slot as int].0 == mods[m2].name);
    }
}

/// Memberships are asked for function by function: each names a function
/// of the description, and a later one never names an earlier function.
pub proof fn lemma_placements(bindings: Seq<FunctionBindingView>)
    ensures
        forall|s: int|
            0 <= s < placements(bindings).len() ==> 0 <= (#[trigger] placements(bindings)[s]).1
                < bindings.len(),
        forall|s: int, t: int|
            0 <= s <= t < placements(bindings).len() ==> (#[trigger] placements(bindings)[s]).1 <= (
            #[trigger] placements(bindings)[t]).1,
    decreases bindings.len(),
{
    if bindings.len() > 0 {
        let init = bindings.drop_last();
        lemma_placements(init);
        let before = placements(init);
        let all = placements(bindings);
        assert forall|s: int| 0 <= s < all.len() implies 0 <= (#[trigger] all[s]).1
            < bindings.len() by {
            if s < before.len() {
                assert(all[s] == before[s]);
            }
        }
        assert forall|s: int, t: int| 0 <= s <= t < all.len() implies (#[trigger] all[s]).1 <= (
        #[trigger] all[t]).1 by {
            if t < before.len() {
                assert(all[s] == before[s] && all[t] == before[t]);
            } else if s < before.len() {
                assert(all[s] == before[s]);
            }
        }
    }
}

/// In every module the members stand in the order of their functions in
/// the description, whatever the order of the modules' names.
pub proof fn lemma_members_ordered(bindings: Seq<FunctionBindingView>, m: int, j: int, k: int)
    requires
        bindings.len() <= usize::MAX,
        placements(bindings).len() <= usize::MAX,
        0 <= m < assembled(placements(bindings)).len(),
        0 <= j < k < assembled(placements(bindings))[m].members.len(),
    ensures
        assembled(placements(bindings))[m].members[j].slot < assembled(
            placements(bindings),
        )[m].members[k].slot,
        assembled(placements(bindings))[m].members[j].func <= assembled(
            placements(bindings),
        )[m].members[k].func,
{
    let asked = placements(bindings);
    lemma_placements(bindings);
    lemma_assembled(asked);
    let mods = assembled(asked);
    let a = mods[m].members[j];
    let b = mods[m].members[k];
    assert(a.slot < b.slot);
    assert(asked[a.slot as int].1 <= asked[b.slot as int].1);
}

/// Whether `a` comes before `b` in the order of strings.
pub fn comes_before(a: &str, b: &str) -> (r: bool)
    ensures
        r == precedes(a@, b@),
{
    let x = chars_of(a);
    let y = chars_of(b);
    let mut i: usize = 0;
    assert(x@.skip(0) =~= x@);
    assert(y@.skip(0) =~= y@);
    while i < x.len() && i < y.len() && x[i] == y[i]
        invariant
            i <= x.len(),
            i <= y.len(),
            precedes(x@, y@) == precedes(x@.skip(i as int), y@.skip(i as int)),
        decreases x.len() - i,
    {
        assert(x@.skip(i as int).drop_first() =~= x@.skip(i + 1));
        assert(y@.skip(i as int).drop_first() =~= y@.skip(i + 1));
        i = i + 1;
    }
    proof {
        let xs = x@.skip(i as int);
        let ys = y@.skip(i as int);
        assert(xs.len() == x.len() - i && ys.len() == y.len() - i);
        if i < x.len() && i < y.len() {
            assert(xs[0] == x@[i as int] && ys[0] == y@[i as int]);
        }
    }
    if i >= y.len() {
        false
    } else if i >= x.len() {
        true
    } else {
        x[i] < y[i]
    }
}

/// Lets `member` join the module called `name`.
pub fn place(mods: &mut Vec<Module>, name: &String, member: Member)
    ensures
        views(final(mods)@) == placed(views(old(mods)@), name@, member),
{
    let ghost before = views(mods@);
    let mut k: usize = 0;
    while k < mods.len() && comes_before(mods[k].name.as_str(), name.as_str())
        invariant
            k <= mods.len(),
            before == views(mods@),
            forall|j: int| 0 <= j < k ==> precedes((#[trigger] before[j]).name, name@),
        decreases mods.len() - k,
    {
        k = k + 1;
    }
    proof {
        lemma_rank_is(before, name@, k as nat);
    }
    if k < mods.len() && same_text(mods[k].name.as_str(), name.as_str()) {
        let mut m = mods.remove(k);
        m.members.push(member);
        mods.insert(k, m);
        assert(views(mods@) =~= placed(before, name@, member));
    } else {
        let mut members: Vec<Member> = Vec::new();
        members.push(member);
        mods.insert(k, Module { name: name.clone(), members });
        assert(views(mods@) =~= placed(before, name@, member));
    }
}

/// Groups the functions by module.
pub fn assemble(bindings: &Vec<FunctionBinding>) -> (r: Assembly)
    ensures
        r@.modules == assembled(placements(views(bindings@))),
        r@.slots == slot_funcs(placements(views(bindings@))),
        modules_within(r@.modules, bindings.len() as nat),
        forall|k: int| 0 <= k < r.slots.len() ==> r.slots@[k] < bindings.len(),
{
    let ghost all = views(bindings@);
    let mut slots: Vec<usize> = Vec::new();
    let mut modules: Vec<Module> = Vec::new();
    let mut i: usize = 0;
    proof {
        assert(all.take(0) =~= Seq::<FunctionBindingView>::empty());
        assert(views(modules@) =~= Seq::<ModuleView>::empty());
        assert(slots@ =~= slot_funcs(placements(all.take(0))));
    }
    while i < bindings.len()
        invariant
            i <= bindings.len(),
            all == views(bindings@),
            views(modules@) == assembled(placements(all.take(i as int))),
            slots@ == slot_funcs(placements(all.take(i as int))),
            modules_within(views(modules@), bindings.len() as nat),
            forall|k: int| 0 <= k < slots.len() ==> slots@[k] < bindings.len(),
        decreases bindings.len() - i,
    {
        let names = &bindings[i].modules;
        let ghost done = placements(all.take(i as int));
        let ghost list = views(names@);
        let mut j: usize = 0;
        proof {
            assert(all.take(i + 1).drop_last() =~= all.take(i as int));
            assert(all.take(i + 1).last() == bindings@[i as int]@);
            assert(list == all[i as int].modules);
            assert(done + row(list.take(0), i as int) =~= done);
        }
        while j < names.len()
            invariant
                j <= names.len(),
                i < bindings.len(),
                list == views(names@),
                views(modules@) == assembled(done + row(list.take(j as int), i as int)),
                slots@ == slot_funcs(done + row(list.take(j as int), i as int)),
                modules_within(views(modules@), bindings.len() as nat),
                forall|k: int| 0 <= k < slots.len() ==> slots@[k] < bindings.len(),
            decreases names.len() - j,
        {
            let ghost asked = done + row(list.take(j as int), i as int);
            let ghost next = done + row(list.take(j + 1), i as int);
            proof {
                assert(next.drop_last() =~= asked);
                assert(next.last() == (names@[j as int]@, i as int));
                assert(next.len() == asked.len() + 1);
            }
            let slot: usize = slots.len();
            slots.push(i);
            proof {
                lemma_placed_within(
                    views(modules@),
                    names@[j as int]@,
                    Member { slot, func: i },
                    bindings.len() as nat,
                );
            }
            place(&mut modules, &names[j], Member { slot, func: i });
            assert(slots@ =~= slot_funcs(next));
            j = j + 1;
        }
        proof {
            assert(list.take(names.len() as int) =~= list);
            assert(placements(all.take(i + 1)) == done + row(list, i as int));
        }
        i = i + 1;
    }
    assert(all.take(bindings.len() as int) =~= all);
    Assembly { slots, modules }
}

} // verus!
