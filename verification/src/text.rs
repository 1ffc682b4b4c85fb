//! Character sequences: scanning, cutting into pieces, joining.
//!
//! Contracts throughout the crate speak of strings by their view, a
//! `Seq<char>`. The functions here work on `Vec<char>` so that every step is a
//! constant-time index, and convert at the edges.

use vstd::prelude::*;
use vstd::string::StrSliceExecFns;
use vstd::string::StringExecFns;

verus! {

/// The ASCII whitespace characters: space, tab, line feed, form feed and
/// carriage return.
pub open spec fn blanks() -> Seq<char> {
    seq![' ', '\t', '\n', '\u{0C}', '\r']
}

/// Whether `c` is ASCII whitespace.
pub open spec fn is_blank(c: char) -> bool {
    c == ' ' || c == '\t' || c == '\n' || c == '\u{0C}' || c == '\r'
}

/// The number of leading characters of `s` that are not in `stops`.
pub open spec fn run(s: Seq<char>, stops: Seq<char>) -> nat
    decreases s.len(),
{
    if s.len() == 0 || stops.contains(s[0]) {
        0
    } else {
        1 + run(s.drop_first(), stops)
    }
}

/// Whether no character of `s` is in `stops`.
pub open spec fn clear_of(s: Seq<char>, stops: Seq<char>) -> bool {
    forall|i: int| 0 <= i < s.len() ==> !stops.contains(#[trigger] s[i])
}

/// `s` cut at every character of `stops`; the stops themselves are left out.
/// There is always at least one piece, and pieces may be empty.
pub open spec fn pieces(s: Seq<char>, stops: Seq<char>) -> Seq<Seq<char>>
    decreases s.len(),
{
    let n = run(s, stops);
    if n >= s.len() {
        seq![s]
    } else {
        seq![s.take(n as int)] + pieces(s.skip(n as int + 1), stops)
    }
}

/// The non-empty members of `parts`, in order.
pub open spec fn nonempty(parts: Seq<Seq<char>>) -> Seq<Seq<char>>
    decreases parts.len(),
{
    if parts.len() == 0 {
        parts
    } else if parts.last().len() == 0 {
        nonempty(parts.drop_last())
    } else {
        nonempty(parts.drop_last()).push(parts.last())
    }
}

/// The maximal runs of non-whitespace characters of `s`, in order.
pub open spec fn words(s: Seq<char>) -> Seq<Seq<char>> {
    nonempty(pieces(s, blanks()))
}

/// The members of `parts` in order with `sep` between neighbours.
pub open spec fn join(parts: Seq<Seq<char>>, sep: Seq<char>) -> Seq<char>
    decreases parts.len(),
{
    if parts.len() == 0 {
        Seq::empty()
    } else if parts.len() == 1 {
        parts[0]
    } else {
        join(parts.drop_last(), sep) + sep + parts.last()
    }
}

/// The number of trailing characters of `s` that equal `c`.
pub open spec fn trailing(s: Seq<char>, c: char) -> nat
    decreases s.len(),
{
    if s.len() == 0 || s.last() != c {
        0
    } else {
        1 + trailing(s.drop_last(), c)
    }
}

/// The number of trailing ASCII whitespace characters of `s`.
pub open spec fn trailing_blanks(s: Seq<char>) -> nat
    decreases s.len(),
{
    if s.len() == 0 || !is_blank(s.last()) {
        0
    } else {
        1 + trailing_blanks(s.drop_last())
    }
}

/// The number of leading ASCII whitespace characters of `s`.
pub open spec fn leading_blanks(s: Seq<char>) -> nat
    decreases s.len(),
{
    if s.len() == 0 || !is_blank(s[0]) {
        0
    } else {
        1 + leading_blanks(s.drop_first())
    }
}

/// `s` without its leading and trailing ASCII whitespace.
pub open spec fn trimmed(s: Seq<char>) -> Seq<char> {
    let a = leading_blanks(s);
    let rest = s.skip(a as int);
    rest.take(rest.len() - trailing_blanks(rest))
}

/// `s` without its trailing run of `c`.
pub open spec fn without_trailing(s: Seq<char>, c: char) -> Seq<char> {
    s.take(s.len() - trailing(s, c))
}

/// `c` as an upper-case letter, if it is an ASCII lower-case letter.
pub open spec fn upper(c: char) -> char {
    if 'a' <= c && c <= 'z' {
        ((c as u8) - 32) as u8 as char
    } else {
        c
    }
}

/// `c` as a lower-case letter, if it is an ASCII upper-case letter.
pub open spec fn lower(c: char) -> char {
    if 'A' <= c && c <= 'Z' {
        ((c as u8) + 32) as u8 as char
    } else {
        c
    }
}

/// `s` with its ASCII letters in upper case.
pub open spec fn upper_text(s: Seq<char>) -> Seq<char> {
    Seq::new(s.len(), |i: int| upper(s[i]))
}

/// `s` with its ASCII letters in lower case.
pub open spec fn lower_text(s: Seq<char>) -> Seq<char> {
    Seq::new(s.len(), |i: int| lower(s[i]))
}

/// The decimal digit for `d`, which is below ten.
pub open spec fn digit(d: nat) -> char {
    (48 + d) as u8 as char
}

/// `n` in decimal digits, without leading zeros.
pub open spec fn decimal(n: nat) -> Seq<char>
    decreases n,
{
    if n < 10 {
        seq![digit(n)]
    } else {
        decimal(n / 10).push(digit(n % 10))
    }
}

/// `n` in decimal digits, behind a minus sign where it is negative.
pub open spec fn signed_decimal(n: int) -> Seq<char> {
    if n < 0 {
        seq!['-'] + decimal((-n) as nat)
    } else {
        decimal(n as nat)
    }
}

/// The views of the members of `items`, in order.
pub open spec fn views<T: View>(items: Seq<T>) -> Seq<T::V> {
    items.map_values(|t: T| t@)
}

pub proof fn lemma_blanks(c: char)
    ensures
        blanks().contains(c) == is_blank(c),
{
    let b = blanks();
    if is_blank(c) {
        if c == ' ' {
            assert(b[0] == c);
        } else if c == '\t' {
            assert(b[1] == c);
        } else if c == '\n' {
            assert(b[2] == c);
        } else if c == '\u{0C}' {
            assert(b[3] == c);
        } else {
            assert(b[4] == c);
        }
    }
}

/// `run` stops at the first stop or at the end, and at nothing before.
pub proof fn lemma_run(s: Seq<char>, stops: Seq<char>)
    ensures
        run(s, stops) <= s.len(),
        forall|j: int| 0 <= j < run(s, stops) ==> !stops.contains(#[trigger] s[j]),
        run(s, stops) < s.len() ==> stops.contains(s[run(s, stops) as int]),
    decreases s.len(),
{
    if s.len() == 0 || stops.contains(s[0]) {
    } else {
        let t = s.drop_first();
        lemma_run(t, stops);
        assert forall|j: int| 0 <= j < run(s, stops) implies !stops.contains(#[trigger] s[j]) by {
            if j > 0 {
                assert(s[j] == t[j - 1]);
            }
        }
        if run(s, stops) < s.len() {
            assert(s[run(s, stops) as int] == t[run(t, stops) as int]);
        }
    }
}

/// Any position with the properties of `lemma_run` is `run`.
pub proof fn lemma_run_is(s: Seq<char>, stops: Seq<char>, k: nat)
    requires
        k <= s.len(),
        forall|j: int| 0 <= j < k ==> !stops.contains(#[trigger] s[j]),
        k < s.len() ==> stops.contains(s[k as int]),
    ensures
        run(s, stops) == k,
    decreases s.len(),
{
    if s.len() == 0 {
    } else if stops.contains(s[0]) {
        if k > 0 {
            assert(!stops.contains(s[0]));
        }
    } else {
        let t = s.drop_first();
        assert(k > 0);
        assert forall|j: int| 0 <= j < k - 1 implies !stops.contains(#[trigger] t[j]) by {
            assert(t[j] == s[j + 1]);
        }
        if k < s.len() {
            assert(t[k - 1] == s[k as int]);
        }
        lemma_run_is(t, stops, (k - 1) as nat);
    }
}

/// Whether every character of `w` occurs in `s`.
pub open spec fn within(w: Seq<char>, s: Seq<char>) -> bool {
    forall|j: int| 0 <= j < w.len() ==> s.contains(#[trigger] w[j])
}

/// A sequence without stops is its own single piece.
pub proof fn lemma_pieces_clear(s: Seq<char>, stops: Seq<char>)
    requires
        clear_of(s, stops),
    ensures
        pieces(s, stops) == seq![s],
{
    lemma_run_is(s, stops, s.len());
}

/// Cutting `a`, a stop, `b` gives the pieces of `a` and then those of `b`.
pub proof fn lemma_pieces_concat(a: Seq<char>, c: char, b: Seq<char>, stops: Seq<char>)
    requires
        stops.contains(c),
    ensures
        pieces(a + seq![c] + b, stops) == pieces(a, stops) + pieces(b, stops),
    decreases a.len(),
{
    let s = a + seq![c] + b;
    let n = run(a, stops);
    lemma_run(a, stops);
    assert(s[a.len() as int] == c);
    assert forall|j: int| 0 <= j < n implies !stops.contains(#[trigger] s[j]) by {
        assert(s[j] == a[j]);
    }
    if n < a.len() {
        assert(s[n as int] == a[n as int]);
        lemma_run_is(s, stops, n);
        assert(s.take(n as int) =~= a.take(n as int));
        assert(s.skip(n as int + 1) =~= a.skip(n as int + 1) + seq![c] + b);
        lemma_pieces_concat(a.skip(n as int + 1), c, b, stops);
        assert(pieces(s, stops) =~= pieces(a, stops) + pieces(b, stops));
    } else {
        lemma_run_is(s, stops, n);
        assert(s.take(n as int) =~= a);
        assert(s.skip(n as int + 1) =~= b);
    }
}

/// Every piece is free of stops and made of characters of the source.
pub proof fn lemma_pieces_members(s: Seq<char>, stops: Seq<char>)
    ensures
        pieces(s, stops).len() >= 1,
        forall|i: int|
            0 <= i < pieces(s, stops).len() ==> clear_of(#[trigger] pieces(s, stops)[i], stops)
                && within(pieces(s, stops)[i], s),
    decreases s.len(),
{
    let n = run(s, stops);
    lemma_run(s, stops);
    if n >= s.len() {
        assert(pieces(s, stops)[0] == s);
    } else {
        let rest = s.skip(n as int + 1);
        lemma_pieces_members(rest, stops);
        assert forall|i: int| 0 <= i < pieces(s, stops).len() implies clear_of(
            #[trigger] pieces(s, stops)[i],
            stops,
        ) && within(pieces(s, stops)[i], s) by {
            let p = pieces(s, stops)[i];
            if i == 0 {
                assert(p == s.take(n as int));
                assert forall|j: int| 0 <= j < p.len() implies s.contains(#[trigger] p[j]) by {
                    assert(s[j] == p[j]);
                }
            } else {
                assert(p == pieces(rest, stops)[i - 1]);
                assert forall|j: int| 0 <= j < p.len() implies s.contains(#[trigger] p[j]) by {
                    assert(rest.contains(p[j]));
                    let k = choose|k: int| 0 <= k < rest.len() && rest[k] == p[j];
                    assert(s[n as int + 1 + k] == p[j]);
                }
            }
        }
    }
}

/// Dropping the empty members works member by member.
pub proof fn lemma_nonempty_concat(x: Seq<Seq<char>>, y: Seq<Seq<char>>)
    ensures
        nonempty(x + y) == nonempty(x) + nonempty(y),
    decreases y.len(),
{
    if y.len() == 0 {
        assert(x + y =~= x);
        assert(nonempty(x) + nonempty(y) =~= nonempty(x));
    } else {
        assert((x + y).drop_last() =~= x + y.drop_last());
        assert((x + y).last() == y.last());
        lemma_nonempty_concat(x, y.drop_last());
        if y.last().len() != 0 {
            assert(nonempty(x + y) =~= nonempty(x) + nonempty(y));
        }
    }
}

/// Every member that `nonempty` keeps is a non-empty member of `parts`.
pub proof fn lemma_nonempty_members(parts: Seq<Seq<char>>)
    ensures
        forall|i: int|
            0 <= i < nonempty(parts).len() ==> (#[trigger] nonempty(parts)[i]).len() > 0
                && parts.contains(nonempty(parts)[i]),
    decreases parts.len(),
{
    if parts.len() > 0 {
        let init = parts.drop_last();
        lemma_nonempty_members(init);
        assert forall|i: int| 0 <= i < nonempty(parts).len() implies (#[trigger] nonempty(
            parts,
        )[i]).len() > 0 && parts.contains(nonempty(parts)[i]) by {
            let w = nonempty(parts)[i];
            if i < nonempty(init).len() {
                assert(w == nonempty(init)[i]);
                assert(init.contains(w));
                let k = choose|k: int| 0 <= k < init.len() && init[k] == w;
                assert(parts[k] == w);
            } else {
                assert(w == parts.last());
                assert(parts[parts.len() - 1] == w);
            }
        }
    }
}

/// Every word is non-empty, free of whitespace and made of characters of the
/// source.
pub proof fn lemma_words_members(s: Seq<char>)
    ensures
        forall|i: int|
            0 <= i < words(s).len() ==> (#[trigger] words(s)[i]).len() > 0 && clear_of(
                words(s)[i],
                blanks(),
            ) && within(words(s)[i], s),
{
    let ps = pieces(s, blanks());
    lemma_pieces_members(s, blanks());
    lemma_nonempty_members(ps);
    assert forall|i: int| 0 <= i < words(s).len() implies (#[trigger] words(s)[i]).len() > 0
        && clear_of(words(s)[i], blanks()) && within(words(s)[i], s) by {
        let w = words(s)[i];
        assert(ps.contains(w));
        let k = choose|k: int| 0 <= k < ps.len() && ps[k] == w;
        assert(clear_of(ps[k], blanks()));
    }
}

/// The words of `a`, a whitespace character, `b` are those of `a` and then
/// those of `b`.
pub proof fn lemma_words_concat(a: Seq<char>, c: char, b: Seq<char>)
    requires
        is_blank(c),
    ensures
        words(a + seq![c] + b) == words(a) + words(b),
{
    lemma_blanks(c);
    lemma_pieces_concat(a, c, b, blanks());
    lemma_nonempty_concat(pieces(a, blanks()), pieces(b, blanks()));
}

/// A non-empty sequence without whitespace is its own single word.
pub proof fn lemma_words_single(w: Seq<char>)
    requires
        w.len() > 0,
        clear_of(w, blanks()),
    ensures
        words(w) == seq![w],
{
    lemma_pieces_clear(w, blanks());
    let ps = seq![w];
    assert(ps.drop_last() =~= Seq::<Seq<char>>::empty());
    assert(nonempty(ps.drop_last()) =~= Seq::<Seq<char>>::empty());
    assert(ps.last() == w);
    assert(nonempty(ps) =~= seq![w]);
}

/// Words joined by single spaces come apart into the same words.
pub proof fn lemma_words_join(ws: Seq<Seq<char>>)
    requires
        forall|i: int|
            0 <= i < ws.len() ==> (#[trigger] ws[i]).len() > 0 && clear_of(ws[i], blanks()),
    ensures
        words(join(ws, seq![' '])) == ws,
    decreases ws.len(),
{
    if ws.len() == 0 {
        let e = Seq::<char>::empty();
        lemma_run_is(e, blanks(), 0);
        assert(pieces(e, blanks()) == seq![e]);
        assert(seq![e].drop_last() =~= Seq::<Seq<char>>::empty());
        assert(nonempty(seq![e].drop_last()) =~= Seq::<Seq<char>>::empty());
        assert(seq![e].last() == e);
        assert(nonempty(seq![e]) =~= Seq::<Seq<char>>::empty());
        assert(ws =~= Seq::<Seq<char>>::empty());
    } else if ws.len() == 1 {
        lemma_words_single(ws[0]);
        assert(ws =~= seq![ws[0]]);
    } else {
        let init = ws.drop_last();
        assert forall|i: int| 0 <= i < init.len() implies (#[trigger] init[i]).len() > 0
            && clear_of(init[i], blanks()) by {
            assert(init[i] == ws[i]);
        }
        lemma_words_join(init);
        assert(ws.last() == ws[ws.len() - 1]);
        lemma_words_single(ws.last());
        lemma_words_concat(join(init, seq![' ']), ' ', ws.last());
        assert(init + seq![ws.last()] =~= ws);
    }
}

/// Joining members that are free of `stops` with a separator that is free of
/// them gives a sequence that is free of them.
pub proof fn lemma_join_clear(parts: Seq<Seq<char>>, sep: Seq<char>, stops: Seq<char>)
    requires
        clear_of(sep, stops),
        forall|i: int| 0 <= i < parts.len() ==> clear_of(#[trigger] parts[i], stops),
    ensures
        clear_of(join(parts, sep), stops),
    decreases parts.len(),
{
    if parts.len() >= 2 {
        let init = parts.drop_last();
        assert forall|i: int| 0 <= i < init.len() implies clear_of(#[trigger] init[i], stops) by {
            assert(init[i] == parts[i]);
        }
        lemma_join_clear(init, sep, stops);
        assert(clear_of(parts[parts.len() - 1], stops));
        let j = join(parts, sep);
        let a = join(init, sep);
        assert forall|k: int| 0 <= k < j.len() implies !stops.contains(#[trigger] j[k]) by {
            if k < a.len() {
                assert(j[k] == a[k]);
            } else if k < a.len() + sep.len() {
                assert(j[k] == sep[k - a.len()]);
            } else {
                assert(j[k] == parts.last()[k - a.len() - sep.len()]);
            }
        }
    } else if parts.len() == 1 {
        assert(clear_of(parts[0], stops));
    }
}

/// What is made of characters of a sequence free of `stops` is free of them.
pub proof fn lemma_within_clear(w: Seq<char>, s: Seq<char>, stops: Seq<char>)
    requires
        within(w, s),
        clear_of(s, stops),
    ensures
        clear_of(w, stops),
{
    assert forall|j: int| 0 <= j < w.len() implies !stops.contains(#[trigger] w[j]) by {
        assert(s.contains(w[j]));
        let k = choose|k: int| 0 <= k < s.len() && s[k] == w[j];
        assert(!stops.contains(s[k]));
    }
}

/// Appends `c` to `s`: `String::push`, which adds exactly that character at
/// the end.
#[verifier::external_body]
pub(crate) fn push_char(s: &mut String, c: char)
    ensures
        final(s)@ == old(s)@.push(c),
{
    s.push(c)
}

/// The characters of `s`.
pub fn chars_of(s: &str) -> (v: Vec<char>)
    ensures
        v@ == s@,
{
    let n: usize = s.unicode_len();
    let mut v: Vec<char> = Vec::new();
    let mut i: usize = 0;
    while i < n
        invariant
            n == s@.len(),
            i <= n,
            v@ == s@.take(i as int),
        decreases n - i,
    {
        let c = s.get_char(i);
        v.push(c);
        i = i + 1;
        assert(v@ =~= s@.take(i as int));
    }
    assert(s@.take(n as int) =~= s@);
    v
}

/// The string made of `v[from..to]`.
pub fn string_of(v: &Vec<char>, from: usize, to: usize) -> (s: String)
    requires
        from <= to <= v.len(),
    ensures
        s@ == v@.subrange(from as int, to as int),
{
    let mut s = String::new();
    let mut i: usize = from;
    assert(s@ =~= v@.subrange(from as int, i as int));
    while i < to
        invariant
            from <= i <= to <= v.len(),
            s@ == v@.subrange(from as int, i as int),
        decreases to - i,
    {
        push_char(&mut s, v[i]);
        i = i + 1;
        assert(s@ =~= v@.subrange(from as int, i as int));
    }
    s
}

/// Whether the two strings hold the same characters.
pub fn same_text(a: &str, b: &str) -> (r: bool)
    ensures
        r == (a@ == b@),
{
    let x = a.to_owned();
    let y = b.to_owned();
    x == y
}

/// Whether `c` is ASCII whitespace.
pub fn blank(c: char) -> (r: bool)
    ensures
        r == is_blank(c),
{
    c == ' ' || c == '\t' || c == '\n' || c == '\u{0C}' || c == '\r'
}

/// Whether `c` is one of `stops`.
pub fn hits(stops: &Vec<char>, c: char) -> (r: bool)
    ensures
        r == stops@.contains(c),
{
    let mut i: usize = 0;
    while i < stops.len()
        invariant
            i <= stops.len(),
            forall|j: int| 0 <= j < i ==> stops@[j] != c,
        decreases stops.len() - i,
    {
        if stops[i] == c {
            return true;
        }
        i = i + 1;
    }
    false
}

/// The first position at or after `from` that holds a stop, or the length of
/// `v` where there is none.
pub fn scan(v: &Vec<char>, from: usize, stops: &Vec<char>) -> (k: usize)
    requires
        from <= v.len(),
    ensures
        from <= k <= v.len(),
        k == from + run(v@.skip(from as int), stops@),
{
    let mut k: usize = from;
    while k < v.len() && !hits(stops, v[k])
        invariant
            from <= k <= v.len(),
            forall|j: int| from <= j < k ==> !stops@.contains(#[trigger] v@[j]),
        decreases v.len() - k,
    {
        k = k + 1;
    }
    proof {
        let t = v@.skip(from as int);
        assert forall|j: int| 0 <= j < k - from implies !stops@.contains(#[trigger] t[j]) by {
            assert(t[j] == v@[from + j]);
        }
        lemma_run_is(t, stops@, (k - from) as nat);
    }
    k
}

/// The ASCII whitespace characters.
pub fn blank_stops() -> (r: Vec<char>)
    ensures
        r@ == blanks(),
{
    let r = vec![' ', '\t', '\n', '\u{0C}', '\r'];
    assert(r@ =~= blanks());
    r
}

/// `s` with its ASCII letters in upper case.
pub fn to_upper(s: &str) -> (r: String)
    ensures
        r@ == upper_text(s@),
{
    let v = chars_of(s);
    let mut r = String::new();
    let mut i: usize = 0;
    while i < v.len()
        invariant
            i <= v.len(),
            r@ == upper_text(v@.take(i as int)),
        decreases v.len() - i,
    {
        let c = v[i];
        let u = if 'a' <= c && c <= 'z' {
            ((c as u8) - 32) as char
        } else {
            c
        };
        push_char(&mut r, u);
        i = i + 1;
        assert(r@ =~= upper_text(v@.take(i as int)));
    }
    assert(v@.take(v.len() as int) =~= v@);
    r
}

/// `s` with its ASCII letters in lower case.
pub fn to_lower(s: &str) -> (r: String)
    ensures
        r@ == lower_text(s@),
{
    let v = chars_of(s);
    let mut r = String::new();
    let mut i: usize = 0;
    while i < v.len()
        invariant
            i <= v.len(),
            r@ == lower_text(v@.take(i as int)),
        decreases v.len() - i,
    {
        let c = v[i];
        let u = if 'A' <= c && c <= 'Z' {
            ((c as u8) + 32) as char
        } else {
            c
        };
        push_char(&mut r, u);
        i = i + 1;
        assert(r@ =~= lower_text(v@.take(i as int)));
    }
    assert(v@.take(v.len() as int) =~= v@);
    r
}

/// `n` in decimal digits.
pub fn to_decimal(n: u64) -> (r: String)
    ensures
        r@ == decimal(n as nat),
    decreases n,
{
    let d = ((n % 10) as u8 + 48) as char;
    if n < 10 {
        let mut r = String::new();
        push_char(&mut r, d);
        assert(r@ =~= seq![digit(n as nat)]);
        r
    } else {
        let mut r = to_decimal(n / 10);
        push_char(&mut r, d);
        r
    }
}

/// `n` in decimal digits, behind a minus sign where it is negative.
pub fn to_signed_decimal(n: i32) -> (r: String)
    ensures
        r@ == signed_decimal(n as int),
{
    if n < 0 {
        let mut r = String::new();
        push_char(&mut r, '-');
        let m: u64 = (-(n as i64)) as u64;
        let digits = to_decimal(m);
        r.append(digits.as_str());
        assert(r@ =~= seq!['-'] + decimal((-n) as nat));
        r
    } else {
        to_decimal(n as u64)
    }
}

/// A copy of `v[from..to]`.
pub fn part(v: &Vec<char>, from: usize, to: usize) -> (r: Vec<char>)
    requires
        from <= to <= v.len(),
    ensures
        r@ == v@.subrange(from as int, to as int),
{
    let mut r: Vec<char> = Vec::new();
    let mut i: usize = from;
    assert(r@ =~= v@.subrange(from as int, i as int));
    while i < to
        invariant
            from <= i <= to <= v.len(),
            r@ == v@.subrange(from as int, i as int),
        decreases to - i,
    {
        r.push(v[i]);
        i = i + 1;
        assert(r@ =~= v@.subrange(from as int, i as int));
    }
    r
}

/// The string made of all of `v`.
pub fn text_of(v: &Vec<char>) -> (s: String)
    ensures
        s@ == v@,
{
    let s = string_of(v, 0, v.len());
    assert(v@.subrange(0, v.len() as int) =~= v@);
    s
}

/// `v` cut at every stop.
pub fn cut(v: &Vec<char>, stops: &Vec<char>) -> (r: Vec<Vec<char>>)
    ensures
        views(r@) == pieces(v@, stops@),
{
    let mut r: Vec<Vec<char>> = Vec::new();
    let mut i: usize = 0;
    assert(v@.skip(0) =~= v@);
    assert(views(r@) =~= Seq::<Seq<char>>::empty());
    loop
        invariant
            i <= v.len(),
            pieces(v@, stops@) == views(r@) + pieces(v@.skip(i as int), stops@),
        decreases v.len() - i,
    {
        let k = scan(v, i, stops);
        let piece = part(v, i, k);
        let ghost before = views(r@);
        let ghost rest = v@.skip(i as int);
        r.push(piece);
        assert(views(r@) =~= before.push(piece@));
        assert(piece@ =~= rest.take(k - i));
        if k >= v.len() {
            assert(rest.take(k - i) =~= rest);
            assert(before + seq![rest] =~= before.push(rest));
            return r;
        }
        assert(rest.skip(k - i + 1) =~= v@.skip(k + 1));
        assert(before + (seq![piece@] + pieces(v@.skip(k + 1), stops@)) =~= before.push(piece@)
            + pieces(v@.skip(k + 1), stops@));
        i = k + 1;
    }
}

/// The non-empty members of `parts`.
pub fn keep_nonempty(parts: Vec<Vec<char>>) -> (r: Vec<Vec<char>>)
    ensures
        views(r@) == nonempty(views(parts@)),
{
    let mut r: Vec<Vec<char>> = Vec::new();
    let mut i: usize = 0;
    let ghost all = views(parts@);
    assert(all.take(0) =~= Seq::<Seq<char>>::empty());
    assert(views(r@) =~= Seq::<Seq<char>>::empty());
    while i < parts.len()
        invariant
            i <= parts.len(),
            all == views(parts@),
            views(r@) == nonempty(all.take(i as int)),
        decreases parts.len() - i,
    {
        let ghost before = views(r@);
        let ghost next = all.take(i + 1);
        assert(next.drop_last() =~= all.take(i as int));
        assert(next.last() == parts@[i as int]@);
        if parts[i].len() > 0 {
            let piece = part(&parts[i], 0, parts[i].len());
            assert(piece@ =~= parts@[i as int]@);
            r.push(piece);
            assert(views(r@) =~= before.push(parts@[i as int]@));
        }
        i = i + 1;
    }
    assert(all.take(parts.len() as int) =~= all);
    r
}

/// The whitespace-separated words of `v`.
pub fn split_words(v: &Vec<char>) -> (r: Vec<Vec<char>>)
    ensures
        views(r@) == words(v@),
{
    let stops = blank_stops();
    keep_nonempty(cut(v, &stops))
}

/// The first `count` members of `parts` with `sep` between neighbours.
pub fn join_text(parts: &Vec<Vec<char>>, count: usize, sep: &str) -> (r: String)
    requires
        count <= parts.len(),
    ensures
        r@ == join(views(parts@).take(count as int), sep@),
{
    let mut r = String::new();
    let mut i: usize = 0;
    let ghost all = views(parts@);
    while i < count
        invariant
            i <= count <= parts.len(),
            all == views(parts@),
            r@ == join(all.take(i as int), sep@),
        decreases count - i,
    {
        let ghost next = all.take(i + 1);
        assert(next.drop_last() =~= all.take(i as int));
        assert(next.last() == parts@[i as int]@);
        if i > 0 {
            r.append(sep);
        }
        let word = text_of(&parts[i]);
        r.append(word.as_str());
        proof {
            if i == 0 {
                assert(r@ =~= parts@[i as int]@);
            }
        }
        i = i + 1;
    }
    r
}

} // verus!
