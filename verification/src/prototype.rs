//! C function prototypes: `TYPE NAME(TYPE NAME, ...)`.

use crate::error::agrees;
use crate::error::Fault;
use crate::text::blanks;
use crate::text::chars_of;
use crate::text::clear_of;
use crate::text::lemma_join_clear;
use crate::text::lemma_pieces_clear;
use crate::text::lemma_pieces_concat;
use crate::text::lemma_pieces_members;
use crate::text::lemma_run;
use crate::text::lemma_run_is;
use crate::text::lemma_within_clear;
use crate::text::lemma_words_concat;
use crate::text::lemma_words_join;
use crate::text::lemma_words_members;
use crate::text::cut;
use crate::text::join;
use crate::text::join_text;
use crate::text::part;
use crate::text::pieces;
use crate::text::run;
use crate::text::same_text;
use crate::text::scan;
use crate::text::split_words;
use crate::text::text_of;
use crate::text::views;
use crate::text::words;
use vstd::prelude::*;
use vstd::string::StringExecFns;

verus! {

/// A C prototype: the return type, the function's name, and each parameter
/// as its type and its name. A type is written with its qualifiers and its
/// `*` markers, words separated by one space.
#[derive(Debug, Clone, PartialEq, Eq)]
pub struct Prototype {
    pub ret: String,
    pub name: String,
    pub pars: Vec<(String, String)>,
}

/// What a `Prototype` holds, as sequences of characters.
pub struct PrototypeView {
    pub ret: Seq<char>,
    pub name: Seq<char>,
    pub pars: Seq<(Seq<char>, Seq<char>)>,
}

impl View for Prototype {
    type V = PrototypeView;

    open spec fn view(&self) -> PrototypeView {
        PrototypeView { ret: self.ret@, name: self.name@, pars: views(self.pars@) }
    }
}

/// The position of the first parameter called `name`, if there is one.
pub open spec fn position(pars: Seq<(Seq<char>, Seq<char>)>, name: Seq<char>) -> Option<int>
    decreases pars.len(),
{
    if pars.len() == 0 {
        None
    } else if pars[0].1 == name {
        Some(0int)
    } else {
        match position(pars.drop_first(), name) {
            Some(k) => Some(k + 1),
            None => None,
        }
    }
}

/// `position` is the least index of a parameter called `name`, and `None`
/// exactly when there is no such parameter.
pub proof fn lemma_position(pars: Seq<(Seq<char>, Seq<char>)>, name: Seq<char>)
    ensures
        match position(pars, name) {
            Some(k) => 0 <= k < pars.len() && pars[k].1 == name && forall|j: int|
                0 <= j < k ==> (#[trigger] pars[j]).1 != name,
            None => forall|j: int| 0 <= j < pars.len() ==> (#[trigger] pars[j]).1 != name,
        },
    decreases pars.len(),
{
    if pars.len() > 0 && pars[0].1 != name {
        let rest = pars.drop_first();
        lemma_position(rest, name);
        match position(rest, name) {
            Some(k) => {
                assert(pars[k + 1] == rest[k]);
                assert forall|j: int| 0 <= j < k + 1 implies (#[trigger] pars[j]).1 != name by {
                    if j > 0 {
                        assert(pars[j] == rest[j - 1]);
                    }
                }
            },
            None => {
                assert forall|j: int| 0 <= j < pars.len() implies (#[trigger] pars[j]).1
                    != name by {
                    if j > 0 {
                        assert(pars[j] == rest[j - 1]);
                    }
                }
            },
        }
    }
}

/// The characters that belong to a function-pointer or array declarator.
pub open spec fn declarators() -> Seq<char> {
    seq!['(', ')', '[', ']']
}

/// The characters that belong to an array declarator.
pub open spec fn brackets() -> Seq<char> {
    seq!['[', ']']
}

/// How many more `(` than `)` there are in `s`.
pub open spec fn depth(s: Seq<char>) -> int
    decreases s.len(),
{
    if s.len() == 0 {
        0
    } else {
        depth(s.drop_last()) + if s.last() == '(' {
            1int
        } else if s.last() == ')' {
            -1int
        } else {
            0int
        }
    }
}

/// Whether some `)` of `s` has no `(` before it to match: the parameter list
/// that `s` is read as would end before `s` does.
pub open spec fn closes_early(s: Seq<char>) -> bool {
    exists|k: int| 0 <= k <= s.len() && #[trigger] depth(s.take(k)) < 0
}

/// The type and the name that a run of words declares: the last word is the
/// name, the words before it, one space between them, are the type.
pub open spec fn declaration(ws: Seq<Seq<char>>) -> (Seq<char>, Seq<char>) {
    (join(ws.drop_last(), seq![' ']), ws.last())
}

/// The parameters that the text between the parentheses declares. Text
/// without a word declares none. Otherwise each comma-separated group has to
/// hold a type and a name.
pub open spec fn parameters(args: Seq<char>) -> Result<Seq<(Seq<char>, Seq<char>)>, Fault> {
    let groups = pieces(args, seq![',']);
    if words(args).len() == 0 {
        Ok(Seq::empty())
    } else if forall|i: int| 0 <= i < groups.len() ==> (#[trigger] words(groups[i])).len() >= 2 {
        Ok(Seq::new(groups.len(), |i: int| declaration(words(groups[i]))))
    } else {
        Err(Fault::MalformedPrototype)
    }
}

/// What `Prototype::from_str` makes of `s`.
///
/// `s` has to end in `)`. Its first `(` parts the head, which holds the
/// return type and the name, from the parameter list, which runs up to the
/// closing `)`. A parameter list that closes before that is malformed; a
/// parenthesis or bracket inside it is a function-pointer or array
/// declarator, which is not supported, and so is a bracket in the head.
pub open spec fn parse(s: Seq<char>) -> Result<PrototypeView, Fault> {
    if s.len() == 0 || s.last() != ')' {
        Err(Fault::MalformedPrototype)
    } else {
        let body = s.drop_last();
        let open = run(body, seq!['(']);
        if open >= body.len() {
            Err(Fault::MalformedPrototype)
        } else {
            let head = words(body.take(open as int));
            let args = body.skip(open as int + 1);
            if closes_early(args) {
                Err(Fault::MalformedPrototype)
            } else if run(args, declarators()) < args.len() || run(
                body.take(open as int),
                brackets(),
            ) < open {
                Err(Fault::UnsupportedConstruct)
            } else if head.len() < 2 {
                Err(Fault::MalformedPrototype)
            } else {
                match parameters(args) {
                    Ok(pars) => Ok(
                        PrototypeView {
                            ret: declaration(head).0,
                            name: declaration(head).1,
                            pars,
                        },
                    ),
                    Err(e) => Err(e),
                }
            }
        }
    }
}

/// One parameter in canonical form: its type, a space, its name.
pub open spec fn line(d: (Seq<char>, Seq<char>)) -> Seq<char> {
    d.0 + seq![' '] + d.1
}

/// The canonical text of a prototype: return type, a space, the name, and in
/// parentheses each parameter as type, space and name, with a comma and a
/// space between parameters.
pub open spec fn canonical(p: PrototypeView) -> Seq<char> {
    p.ret + seq![' '] + p.name + seq!['('] + join(
        p.pars.map_values(|d: (Seq<char>, Seq<char>)| line(d)),
        seq![',', ' '],
    ) + seq![')']
}

/// Text without parentheses never closes a parameter list early.
proof fn lemma_depth_clear(s: Seq<char>)
    requires
        clear_of(s, declarators()),
    ensures
        depth(s) == 0,
        !closes_early(s),
    decreases s.len(),
{
    let d = declarators();
    assert(d[0] == '(' && d[1] == ')');
    if s.len() > 0 {
        let init = s.drop_last();
        assert forall|i: int| 0 <= i < init.len() implies !d.contains(#[trigger] init[i]) by {
            assert(init[i] == s[i]);
        }
        lemma_depth_clear(init);
        assert(!d.contains(s[s.len() - 1]));
    }
    assert forall|k: int| 0 <= k <= s.len() implies #[trigger] depth(s.take(k)) >= 0 by {
        if k < s.len() {
            let t = s.take(k);
            assert forall|i: int| 0 <= i < t.len() implies !d.contains(#[trigger] t[i]) by {
                assert(t[i] == s[i]);
            }
            lemma_depth_clear(t);
        } else {
            assert(s.take(k) =~= s);
        }
    }
}

/// A declaration of two or more clean words, written as a line, is those
/// words joined by spaces, and reads back as the same words.
proof fn lemma_line_words(ws: Seq<Seq<char>>)
    requires
        ws.len() >= 2,
        forall|i: int|
            0 <= i < ws.len() ==> (#[trigger] ws[i]).len() > 0 && clear_of(ws[i], blanks()),
    ensures
        line(declaration(ws)) == join(ws, seq![' ']),
        words(line(declaration(ws))) == ws,
{
    lemma_words_join(ws);
}

/// The groups in canonical form: the first line as it is, each later one
/// behind a space.
spec fn spaced(lines: Seq<Seq<char>>) -> Seq<Seq<char>> {
    Seq::new(
        lines.len(),
        |i: int|
            if i == 0 {
                lines[0]
            } else {
                seq![' '] + lines[i]
            },
    )
}

/// Lines without commas, joined by comma and space, come apart at the commas.
proof fn lemma_groups(lines: Seq<Seq<char>>)
    requires
        lines.len() >= 1,
        forall|i: int| 0 <= i < lines.len() ==> clear_of(#[trigger] lines[i], seq![',']),
    ensures
        pieces(join(lines, seq![',', ' ']), seq![',']) == spaced(lines),
    decreases lines.len(),
{
    let stops = seq![','];
    assert(stops[0] == ',');
    if lines.len() == 1 {
        lemma_pieces_clear(lines[0], stops);
        assert(spaced(lines) =~= seq![lines[0]]);
    } else {
        let init = lines.drop_last();
        let last = lines.last();
        assert forall|i: int| 0 <= i < init.len() implies clear_of(#[trigger] init[i], stops) by {
            assert(init[i] == lines[i]);
        }
        lemma_groups(init);
        let tail = seq![' '] + last;
        assert(clear_of(lines[lines.len() - 1], stops));
        assert forall|k: int| 0 <= k < tail.len() implies !stops.contains(#[trigger] tail[k]) by {
            if k > 0 {
                assert(tail[k] == last[k - 1]);
            }
        }
        lemma_pieces_clear(tail, stops);
        let a = join(init, seq![',', ' ']);
        assert(join(lines, seq![',', ' ']) =~= a + seq![','] + tail);
        lemma_pieces_concat(a, ',', tail, stops);
        assert(spaced(init) + seq![tail] =~= spaced(lines));
    }
}

/// A parameter list that parses, written in canonical form, parses to the
/// same parameters and holds no declarator.
proof fn lemma_parameters_canonical(args: Seq<char>)
    requires
        clear_of(args, declarators()),
        parameters(args) is Ok,
    ensures
        ({
            let pars = parameters(args)->Ok_0;
            let text = join(pars.map_values(|d: (Seq<char>, Seq<char>)| line(d)), seq![',', ' ']);
            clear_of(text, declarators()) && parameters(text) == Ok::<_, Fault>(pars)
        }),
{
    let pars = parameters(args)->Ok_0;
    let lines = pars.map_values(|d: (Seq<char>, Seq<char>)| line(d));
    let sep = seq![',', ' '];
    let sp = seq![' '];
    let text = join(lines, sep);
    let d = declarators();
    let comma = seq![','];
    let e = Seq::<char>::empty();
    lemma_words_join(Seq::<Seq<char>>::empty());
    assert(join(Seq::<Seq<char>>::empty(), sp) =~= e);
    assert(words(e).len() == 0);
    if words(args).len() == 0 {
        assert(lines =~= Seq::<Seq<char>>::empty());
        assert(text =~= e);
        assert(pars =~= Seq::empty());
    } else {
        let groups = pieces(args, comma);
        lemma_pieces_members(args, comma);
        assert(pars.len() == groups.len());
        assert forall|i: int| 0 <= i < lines.len() implies clear_of(#[trigger] lines[i], comma)
            && clear_of(lines[i], d) && words(lines[i]) == words(groups[i]) && words(
            groups[i],
        ).len() >= 2 by {
            let ws = words(groups[i]);
            assert(ws.len() >= 2);
            lemma_words_members(groups[i]);
            lemma_within_clear(groups[i], args, d);
            assert(clear_of(groups[i], comma));
            assert forall|j: int| 0 <= j < ws.len() implies clear_of(#[trigger] ws[j], comma)
                && clear_of(ws[j], d) by {
                lemma_within_clear(ws[j], groups[i], comma);
                lemma_within_clear(ws[j], groups[i], d);
            }
            assert(pars[i] == declaration(ws));
            assert(lines[i] == line(pars[i]));
            lemma_line_words(ws);
            assert(!comma.contains(' ')) by {
                if comma.contains(' ') {
                    let k = choose|k: int| 0 <= k < comma.len() && comma[k] == ' ';
                    assert(comma[k] == ',');
                }
            }
            assert(!d.contains(' ')) by {
                if d.contains(' ') {
                    let k = choose|k: int| 0 <= k < d.len() && d[k] == ' ';
                    assert(d[k] != ' ');
                }
            }
            assert(clear_of(sp, comma));
            assert(clear_of(sp, d));
            lemma_join_clear(ws, sp, comma);
            lemma_join_clear(ws, sp, d);
        }
        assert(clear_of(sep, d)) by {
            assert forall|k: int| 0 <= k < sep.len() implies !d.contains(#[trigger] sep[k]) by {
                if d.contains(sep[k]) {
                    let m = choose|m: int| 0 <= m < d.len() && d[m] == sep[k];
                    assert(d[m] != ',' && d[m] != ' ');
                }
            }
        }
        lemma_join_clear(lines, sep, d);
        lemma_groups(lines);
        let groups2 = pieces(text, comma);
        assert(groups2 == spaced(lines));
        assert forall|i: int| 0 <= i < groups2.len() implies #[trigger] words(groups2[i]) == words(
            groups[i],
        ) by {
            if i > 0 {
                assert(groups2[i] =~= e + seq![' '] + lines[i]);
                lemma_words_concat(e, ' ', lines[i]);
                assert(words(e) + words(lines[i]) =~= words(lines[i]));
            }
        }
        assert(words(text).len() > 0) by {
            if lines.len() == 1 {
                assert(text == lines[0]);
            } else {
                let a = join(lines.drop_last(), sep) + seq![','];
                assert(text =~= a + seq![' '] + lines.last());
                lemma_words_concat(a, ' ', lines.last());
                assert(lines.last() == lines[lines.len() - 1]);
            }
        }
        assert(parameters(text)->Ok_0 =~= pars);
    }
}

/// A prototype that parses, written in canonical form, parses to the same
/// prototype again.
pub proof fn lemma_parse_canonical(s: Seq<char>)
    requires
        parse(s) is Ok,
    ensures
        parse(canonical(parse(s)->Ok_0)) == parse(s),
{
    let p = parse(s)->Ok_0;
    let paren = seq!['('];
    let sp = seq![' '];
    let body = s.drop_last();
    let open = run(body, paren);
    let head_text = body.take(open as int);
    let head = words(head_text);
    let args = body.skip(open as int + 1);
    assert(paren[0] == '(');
    lemma_run(body, paren);
    lemma_words_members(head_text);
    assert(clear_of(head_text, paren)) by {
        assert forall|i: int| 0 <= i < head_text.len() implies !paren.contains(
            #[trigger] head_text[i],
        ) by {
            assert(head_text[i] == body[i]);
        }
    }
    assert forall|i: int| 0 <= i < head.len() implies clear_of(#[trigger] head[i], paren) by {
        lemma_within_clear(head[i], head_text, paren);
    }
    assert(clear_of(sp, paren)) by {
        if paren.contains(' ') {
            let k = choose|k: int| 0 <= k < paren.len() && paren[k] == ' ';
            assert(paren[k] == '(');
        }
    }
    let head2 = join(head, sp);
    assert(head2 == p.ret + sp + p.name);
    lemma_join_clear(head, sp, paren);
    lemma_words_join(head);
    let square = brackets();
    lemma_run(head_text, square);
    assert forall|i: int| 0 <= i < head.len() implies clear_of(#[trigger] head[i], square) by {
        lemma_within_clear(head[i], head_text, square);
    }
    assert(clear_of(sp, square)) by {
        if square.contains(' ') {
            let k = choose|k: int| 0 <= k < square.len() && square[k] == ' ';
            assert(square[k] != ' ');
        }
    }
    lemma_join_clear(head, sp, square);
    lemma_run_is(head2, square, head2.len());

    lemma_run(args, declarators());
    lemma_parameters_canonical(args);
    let args2 = join(p.pars.map_values(|d: (Seq<char>, Seq<char>)| line(d)), seq![',', ' ']);
    lemma_depth_clear(args2);
    lemma_run_is(args2, declarators(), args2.len());

    let c = canonical(p);
    assert(c =~= head2 + paren + args2 + seq![')']);
    assert(c.last() == ')');
    let body2 = c.drop_last();
    assert(body2 =~= head2 + paren + args2);
    assert(body2[head2.len() as int] == '(');
    assert forall|j: int| 0 <= j < head2.len() implies !paren.contains(#[trigger] body2[j]) by {
        assert(body2[j] == head2[j]);
    }
    lemma_run_is(body2, paren, head2.len());
    assert(body2.take(head2.len() as int) =~= head2);
    assert(body2.skip(head2.len() as int + 1) =~= args2);
}


/// Whether some `)` of `v` has no `(` before it to match.
fn closes(v: &Vec<char>) -> (r: bool)
    ensures
        r == closes_early(v@),
{
    let mut d: usize = 0;
    let mut i: usize = 0;
    assert(v@.take(0) =~= Seq::<char>::empty());
    while i < v.len()
        invariant
            i <= v.len(),
            d == depth(v@.take(i as int)),
            d <= i,
            forall|k: int| 0 <= k <= i ==> #[trigger] depth(v@.take(k)) >= 0,
        decreases v.len() - i,
    {
        assert(v@.take(i + 1).drop_last() =~= v@.take(i as int));
        if v[i] == '(' {
            d = d + 1;
        } else if v[i] == ')' {
            if d == 0 {
                assert(depth(v@.take(i + 1)) < 0);
                return true;
            }
            d = d - 1;
        }
        i = i + 1;
    }
    false
}

/// The type and the name that `ws` declares.
fn declare(ws: &Vec<Vec<char>>) -> (r: (String, String))
    requires
        ws.len() >= 1,
    ensures
        (r.0@, r.1@) == declaration(views(ws@)),
{
    let n: usize = ws.len();
    let ty = join_text(ws, n - 1, " ");
    let name = text_of(&ws[n - 1]);
    proof {
        reveal_strlit(" ");
        assert(" "@ =~= seq![' ']);
        assert(views(ws@).take(n - 1) =~= views(ws@).drop_last());
    }
    (ty, name)
}

/// The parameters that the groups declare, one for each group, or `None`
/// where a group holds fewer than two words.
fn declare_all(groups: &Vec<Vec<char>>) -> (r: Option<Vec<(String, String)>>)
    ensures
        match r {
            Some(pars) => {
                &&& forall|i: int|
                    0 <= i < groups.len() ==> (#[trigger] words(views(groups@)[i])).len() >= 2
                &&& views(pars@) == Seq::new(
                    groups.len() as nat,
                    |i: int| declaration(words(views(groups@)[i])),
                )
            },
            None => exists|i: int|
                0 <= i < groups.len() && (#[trigger] words(views(groups@)[i])).len() < 2,
        },
{
    let mut pars: Vec<(String, String)> = Vec::new();
    let mut i: usize = 0;
    let ghost gs = views(groups@);
    while i < groups.len()
        invariant
            i <= groups.len(),
            gs == views(groups@),
            pars.len() == i,
            forall|j: int| 0 <= j < i ==> (#[trigger] words(gs[j])).len() >= 2,
            forall|j: int| 0 <= j < i ==> (#[trigger] pars@[j])@ == declaration(words(gs[j])),
        decreases groups.len() - i,
    {
        let ws = split_words(&groups[i]);
        assert(views(ws@) == words(gs[i as int]));
        if ws.len() < 2 {
            return None;
        }
        let d = declare(&ws);
        pars.push(d);
        i = i + 1;
    }
    assert(views(pars@) =~= Seq::new(groups.len() as nat, |i: int| declaration(words(gs[i]))));
    Some(pars)
}

/// The position of the first parameter called `name`, if there is one.
pub fn find_index(params: &Vec<(String, String)>, name: &str) -> (r: Option<usize>)
    ensures
        match r {
            Some(i) => position(views(params@), name@) == Some(i as int),
            None => position(views(params@), name@) is None,
        },
{
    let ghost pars = views(params@);
    let mut i: usize = 0;
    while i < params.len()
        invariant
            i <= params.len(),
            pars == views(params@),
            forall|j: int| 0 <= j < i ==> (#[trigger] pars[j]).1 != name@,
        decreases params.len() - i,
    {
        if same_text(params[i].1.as_str(), name) {
            proof {
                assert(pars[i as int].1 == name@);
                lemma_position(pars, name@);
            }
            return Some(i);
        }
        i = i + 1;
    }
    proof {
        lemma_position(pars, name@);
    }
    None
}

/// The position of the first parameter called `name`.
pub fn get_index(params: &Vec<(String, String)>, name: &str) -> (r: usize)
    requires
        position(views(params@), name@) is Some,
    ensures
        position(views(params@), name@) == Some(r as int),
{
    match find_index(params, name) {
        Some(i) => i,
        None => 0,
    }
}

/// The type of the first parameter called `name`.
pub fn get_formal_type(params: &Vec<(String, String)>, name: &str) -> (r: String)
    requires
        position(views(params@), name@) is Some,
    ensures
        r@ == views(params@)[position(views(params@), name@)->0].0,
{
    proof {
        lemma_position(views(params@), name@);
    }
    let i = get_index(params, name);
    params[i].0.clone()
}

impl Prototype {
    /// Reads a prototype from its text.
    pub fn from_str(string: &str) -> (r: Result<Prototype, Fault>)
        ensures
            agrees(r, parse(string@)),
    {
        let mut body = chars_of(string);
        let n: usize = body.len();
        if n == 0 || body[n - 1] != ')' {
            return Err(Fault::MalformedPrototype);
        }
        body.pop();
        assert(body@ =~= string@.drop_last());
        let paren: Vec<char> = vec!['('];
        assert(paren@ =~= seq!['(']);
        assert(body@.skip(0) =~= body@);
        let open: usize = scan(&body, 0, &paren);
        if open >= body.len() {
            return Err(Fault::MalformedPrototype);
        }
        let head = part(&body, 0, open);
        let args = part(&body, open + 1, body.len());
        assert(head@ =~= body@.take(open as int));
        assert(args@ =~= body@.skip(open as int + 1));
        if closes(&args) {
            return Err(Fault::MalformedPrototype);
        }
        let marks: Vec<char> = vec!['(', ')', '[', ']'];
        assert(marks@ =~= declarators());
        assert(args@.skip(0) =~= args@);
        if scan(&args, 0, &marks) < args.len() {
            return Err(Fault::UnsupportedConstruct);
        }
        let square: Vec<char> = vec!['[', ']'];
        assert(square@ =~= brackets());
        assert(head@.skip(0) =~= head@);
        if scan(&head, 0, &square) < head.len() {
            return Err(Fault::UnsupportedConstruct);
        }
        let head_words = split_words(&head);
        if head_words.len() < 2 {
            return Err(Fault::MalformedPrototype);
        }
        let (ret, name) = declare(&head_words);
        if split_words(&args).len() == 0 {
            let pars: Vec<(String, String)> = Vec::new();
            assert(views(pars@) =~= Seq::<(Seq<char>, Seq<char>)>::empty());
            return Ok(Prototype { ret, name, pars });
        }
        let comma: Vec<char> = vec![','];
        assert(comma@ =~= seq![',']);
        let groups = cut(&args, &comma);
        match declare_all(&groups) {
            Some(pars) => Ok(Prototype { ret, name, pars }),
            None => Err(Fault::MalformedPrototype),
        }
    }

    /// The prototype written out in canonical form.
    pub fn canonical(&self) -> (r: String)
        ensures
            r@ == canonical(self@),
    {
        let mut r = self.ret.clone();
        r.append(" ");
        r.append(self.name.as_str());
        r.append("(");
        let mut i: usize = 0;
        let ghost lines = self@.pars.map_values(|d: (Seq<char>, Seq<char>)| line(d));
        let ghost start = r@;
        proof {
            reveal_strlit(" ");
            reveal_strlit("(");
            reveal_strlit(")");
            reveal_strlit(", ");
            assert(" "@ =~= seq![' ']);
            assert("("@ =~= seq!['(']);
            assert(")"@ =~= seq![')']);
            assert(", "@ =~= seq![',', ' ']);
            assert(lines.take(0) =~= Seq::<Seq<char>>::empty());
            assert(r@ =~= start + join(lines.take(0), seq![',', ' ']));
        }
        while i < self.pars.len()
            invariant
                i <= self.pars.len(),
                lines == self@.pars.map_values(|d: (Seq<char>, Seq<char>)| line(d)),
                lines.len() == self.pars.len(),
                " "@ == seq![' '],
                ", "@ == seq![',', ' '],
                r@ == start + join(lines.take(i as int), seq![',', ' ']),
            decreases self.pars.len() - i,
        {
            let ghost next = lines.take(i + 1);
            let ghost before = r@;
            assert(next.drop_last() =~= lines.take(i as int));
            assert(next.last() == self.pars@[i as int].0@ + seq![' '] + self.pars@[i as int].1@);
            if i > 0 {
                r.append(", ");
            }
            r.append(self.pars[i].0.as_str());
            r.append(" ");
            r.append(self.pars[i].1.as_str());
            proof {
                if i == 0 {
                    assert(r@ =~= start + next.last());
                } else {
                    assert(r@ =~= start + (join(lines.take(i as int), seq![',', ' ']) + seq![
                        ',',
                        ' ',
                    ] + next.last()));
                }
            }
            i = i + 1;
        }
        assert(lines.take(self.pars.len() as int) =~= lines);
        r.append(")");
        r
    }
}

} // verus!
