//! From C type spellings to the types of the generated code.
//!
//! A C type is read as an optional `const `, a base name, and trailing `*`
//! markers. The base name maps to a scalar token of the raw interface, to the
//! untyped pointee of an opaque type, or to the name of a struct. A token of
//! the raw interface in turn has a type that safe code sees, if it is a scalar
//! token.

use crate::model::names;
use crate::model::view_opt;
use crate::model::Address;
use crate::text::chars_of;
use crate::text::blank;
use crate::text::leading_blanks;
use crate::text::part;
use crate::text::same_text;
use crate::text::text_of;
use crate::text::trailing;
use crate::text::trailing_blanks;
use crate::text::trimmed;
use crate::text::views;
use crate::text::without_trailing;
use heck::CamelCase;
use vstd::prelude::*;
use vstd::string::StringExecFns;

verus! {

/// What `heck`'s camel case conversion makes of `s`.
pub uninterp spec fn camel_case(s: Seq<char>) -> Seq<char>;

/// `heck::CamelCase::to_camel_case` for `str`: the words of `s` as `heck`
/// finds them, each capitalised, with nothing between them. The result
/// depends on `s` alone.
#[verifier::external_body]
pub(crate) fn to_camel_case(s: &str) -> (r: String)
    ensures
        r@ == camel_case(s@),
{
    s.to_camel_case()
}

/// The qualifier that marks a type as constant.
pub open spec fn const_mark() -> Seq<char> {
    seq!['c', 'o', 'n', 's', 't', ' ']
}

/// Whether the C type `ty` is qualified `const`.
pub open spec fn is_const(ty: Seq<char>) -> bool {
    const_mark().is_prefix_of(ty)
}

/// `ty` without a leading `const `.
pub open spec fn unqualified(ty: Seq<char>) -> Seq<char> {
    if is_const(ty) {
        ty.skip(6)
    } else {
        ty
    }
}

/// How many levels of pointer the C type `ty` has: its trailing `*` markers.
pub open spec fn pointer_depth(ty: Seq<char>) -> nat {
    trailing(unqualified(ty), '*')
}

/// The base name of the C type `ty`: what is left without the `const `
/// qualifier, the trailing `*` markers, and whitespace around it.
pub open spec fn base_name(ty: Seq<char>) -> Seq<char> {
    trimmed(without_trailing(unqualified(ty), '*'))
}

/// The name of the generated type for the C type name `base`: a trailing
/// `_t` is dropped, and the rest is put in camel case.
pub open spec fn handle_name(base: Seq<char>) -> Seq<char> {
    if "_t"@.is_suffix_of(base) {
        camel_case(base.take(base.len() - "_t"@.len()))
    } else {
        camel_case(base)
    }
}

/// The scalar token of the raw interface for a fixed-width or standard C
/// scalar name, and `None` for any other name.
pub open spec fn scalar(base: Seq<char>) -> Option<Seq<char>> {
    if base == "uint8_t"@ {
        Some("u8"@)
    } else if base == "int8_t"@ {
        Some("i8"@)
    } else if base == "uint16_t"@ {
        Some("u16"@)
    } else if base == "int16_t"@ {
        Some("i16"@)
    } else if base == "uint32_t"@ {
        Some("u32"@)
    } else if base == "int32_t"@ {
        Some("i32"@)
    } else if base == "uint64_t"@ {
        Some("u64"@)
    } else if base == "int64_t"@ {
        Some("i64"@)
    } else if base == "char"@ {
        Some("std::os::raw::c_char"@)
    } else if base == "unsigned char"@ {
        Some("std::os::raw::c_uchar"@)
    } else if base == "signed char"@ {
        Some("std::os::raw::c_schar"@)
    } else if base == "unsigned short"@ || base == "unsigned short int"@ {
        Some("std::os::raw::c_ushort"@)
    } else if base == "short"@ || base == "signed short"@ || base == "short int"@ || base
        == "signed short int"@ {
        Some("std::os::raw::c_short"@)
    } else if base == "unsigned int"@ || base == "unsigned"@ {
        Some("std::os::raw::c_uint"@)
    } else if base == "int"@ || base == "signed int"@ || base == "signed"@ {
        Some("std::os::raw::c_int"@)
    } else if base == "unsigned long long int"@ || base == "unsigned long long"@ {
        Some("std::os::raw::c_ulonglong"@)
    } else if base == "long long int"@ || base == "long long"@ || base == "signed long long int"@
        || base == "signed long long"@ {
        Some("std::os::raw::c_longlong"@)
    } else if base == "unsigned long int"@ || base == "unsigned long"@ {
        Some("std::os::raw::c_ulong"@)
    } else if base == "long int"@ || base == "long"@ {
        Some("std::os::raw::c_long"@)
    } else if base == "double"@ {
        Some("std::os::raw::c_double"@)
    } else if base == "float"@ {
        Some("std::os::raw::c_float"@)
    } else if base == "bool"@ {
        Some("bool"@)
    } else if base == "void"@ {
        Some("()"@)
    } else {
        None
    }
}

/// The token of the raw interface for the C type name `input`, whitespace
/// around it aside: its scalar token where it has one; the untyped pointee
/// where it names an opaque type; else the name of the struct generated for
/// it.
pub open spec fn binding(input: Seq<char>, addresses: Seq<Seq<char>>) -> Seq<char> {
    let base = trimmed(input);
    match scalar(base) {
        Some(token) => token,
        None => if addresses.contains(base) {
            "std::os::raw::c_void"@
        } else {
            handle_name(base)
        },
    }
}

/// The type that safe code sees for a scalar token of the raw interface:
/// the fixed-width type of a C scalar token, and the token itself where it
/// is a fixed-width type, `bool` or `()`. Any other token has no scalar
/// equivalent and gives `None`: the untyped pointee of an opaque type, and
/// the name of a struct.
pub open spec fn surface(token: Seq<char>) -> Option<Seq<char>> {
    if token == "std::os::raw::c_char"@ {
        Some("char"@)
    } else if token == "std::os::raw::c_uchar"@ {
        Some("u8"@)
    } else if token == "std::os::raw::c_schar"@ {
        Some("i8"@)
    } else if token == "std::os::raw::c_ushort"@ {
        Some("u16"@)
    } else if token == "std::os::raw::c_short"@ {
        Some("i16"@)
    } else if token == "std::os::raw::c_uint"@ {
        Some("u32"@)
    } else if token == "std::os::raw::c_int"@ {
        Some("i32"@)
    } else if token == "std::os::raw::c_ulonglong"@ {
        Some("u64"@)
    } else if token == "std::os::raw::c_longlong"@ {
        Some("i64"@)
    } else if token == "std::os::raw::c_ulong"@ {
        Some("usize"@)
    } else if token == "std::os::raw::c_long"@ {
        Some("isize"@)
    } else if token == "std::os::raw::c_double"@ {
        Some("f64"@)
    } else if token == "std::os::raw::c_float"@ {
        Some("f32"@)
    } else if token == "()"@ || token == "bool"@ || token == "u8"@ || token == "i8"@ || token == "u16"@ || token == "i16"@ || token == "u32"@ || token == "i32"@ || token == "u64"@ || token == "i64"@ {
        Some(token)
    } else {
        None
    }
}

/// How safe code sees a value of a C type: under which type name, and
/// whether as a wrapper around a pointer rather than as a bare scalar.
pub struct SafeType<S> {
    pub name: S,
    pub wrapped: bool,
}

impl View for SafeType<String> {
    type V = SafeType<Seq<char>>;

    open spec fn view(&self) -> SafeType<Seq<char>> {
        SafeType { name: self.name@, wrapped: self.wrapped }
    }
}

/// How safe code sees a value of the C type `ty`, pointer markers and
/// `const` aside: as the surface type of its token where that is a scalar
/// token, else, for an opaque type and for a struct alike, as the wrapper
/// that is named after its base.
pub open spec fn safe_type(ty: Seq<char>, addresses: Seq<Seq<char>>) -> SafeType<Seq<char>> {
    let base = base_name(ty);
    match surface(binding(base, addresses)) {
        Some(name) => SafeType { name, wrapped: false },
        None => SafeType { name: handle_name(base), wrapped: true },
    }
}

/// The type of the raw interface for the C type `ty`: the token of its base,
/// behind one pointer annotation for each `*`, constant where `ty` is.
pub open spec fn raw_type(ty: Seq<char>, addresses: Seq<Seq<char>>) -> Seq<char> {
    pointer_marks(pointer_depth(ty), is_const(ty)) + binding(base_name(ty), addresses)
}

/// `depth` pointer annotations in a row.
pub open spec fn pointer_marks(depth: nat, constant: bool) -> Seq<char>
    decreases depth,
{
    if depth == 0 {
        Seq::empty()
    } else {
        pointer_marks((depth - 1) as nat, constant) + if constant {
            "*const "@
        } else {
            "*mut "@
        }
    }
}

/// `v` without its leading and trailing ASCII whitespace.
pub fn trim(v: &Vec<char>) -> (r: Vec<char>)
    ensures
        r@ == trimmed(v@),
{
    let mut a: usize = 0;
    assert(v@.skip(0) =~= v@);
    while a < v.len() && blank(v[a])
        invariant
            a <= v.len(),
            leading_blanks(v@) == a + leading_blanks(v@.skip(a as int)),
        decreases v.len() - a,
    {
        assert(v@.skip(a as int).drop_first() =~= v@.skip(a + 1));
        a = a + 1;
    }
    let ghost rest = v@.skip(a as int);
    let mut b: usize = v.len();
    assert(rest.take(rest.len() as int) =~= rest);
    while b > a && blank(v[b - 1])
        invariant
            a <= b <= v.len(),
            rest == v@.skip(a as int),
            trailing_blanks(rest) == (v.len() - b) + trailing_blanks(rest.take(b - a)),
        decreases b,
    {
        assert(rest.take(b - a).drop_last() =~= rest.take(b - a - 1));
        b = b - 1;
    }
    let r = part(v, a, b);
    assert(r@ =~= rest.take(rest.len() - trailing_blanks(rest)));
    r
}

/// Whether `v` begins with `const `.
fn constant(v: &Vec<char>) -> (r: bool)
    ensures
        r == is_const(v@),
{
    let r = v.len() >= 6 && v[0] == 'c' && v[1] == 'o' && v[2] == 'n' && v[3] == 's' && v[4] == 't'
        && v[5] == ' ';
    proof {
        let m = const_mark();
        if r {
            assert(v@.subrange(0, 6) =~= m);
        } else if m.is_prefix_of(v@) {
            assert(v@.subrange(0, 6) == m);
            assert(v@[0] == m[0] && v@[1] == m[1] && v@[2] == m[2] && v@[3] == m[3] && v@[4]
                == m[4] && v@[5] == m[5]);
        }
    }
    r
}

/// The parts of a C type.
pub struct Shape {
    pub constant: bool,
    pub depth: usize,
    pub base: String,
}

/// Splits the C type `ty` into constness, pointer depth and base name.
pub fn shape(ty: &str) -> (r: Shape)
    ensures
        r.constant == is_const(ty@),
        r.depth == pointer_depth(ty@),
        r.base@ == base_name(ty@),
{
    let v = chars_of(ty);
    let c = constant(&v);
    let from: usize = if c {
        6
    } else {
        0
    };
    let u = part(&v, from, v.len());
    assert(u@ =~= unqualified(ty@));
    let mut end: usize = u.len();
    assert(u@.take(end as int) =~= u@);
    while end > 0 && u[end - 1] == '*'
        invariant
            end <= u.len(),
            trailing(u@, '*') == (u.len() - end) + trailing(u@.take(end as int), '*'),
        decreases end,
    {
        assert(u@.take(end as int).drop_last() =~= u@.take(end - 1));
        end = end - 1;
    }
    let stem = part(&u, 0, end);
    assert(stem@ =~= without_trailing(u@, '*'));
    let base = text_of(&trim(&stem));
    Shape { constant: c, depth: u.len() - end, base }
}

/// The name of the generated type for the C type name `base`.
pub fn struct_name(base: &str) -> (r: String)
    ensures
        r@ == handle_name(base@),
{
    let v = chars_of(base);
    let n: usize = v.len();
    proof {
        reveal_strlit("_t");
        let m = "_t"@;
        assert(m.len() == 2 && m[0] == '_' && m[1] == 't');
        if n >= 2 && v@[n - 2] == '_' && v@[n - 1] == 't' {
            assert(v@.subrange(n - 2, n as int) =~= m);
        } else if m.is_suffix_of(v@) {
            let tail = v@.subrange(n - 2, n as int);
            assert(tail[0] == m[0] && tail[1] == m[1]);
        }
    }
    if n >= 2 && v[n - 2] == '_' && v[n - 1] == 't' {
        let stem = crate::text::string_of(&v, 0, n - 2);
        assert(stem@ =~= base@.take(n - 2));
        to_camel_case(stem.as_str())
    } else {
        to_camel_case(base)
    }
}

/// The scalar token for `base`, where it has one.
fn scalar_token(base: &str) -> (r: Option<&'static str>)
    ensures
        match r {
            Some(token) => scalar(base@) == Some(token@),
            None => scalar(base@) is None,
        },
{
    if same_text(base, "uint8_t") {
        Some("u8")
    } else if same_text(base, "int8_t") {
        Some("i8")
    } else if same_text(base, "uint16_t") {
        Some("u16")
    } else if same_text(base, "int16_t") {
        Some("i16")
    } else if same_text(base, "uint32_t") {
        Some("u32")
    } else if same_text(base, "int32_t") {
        Some("i32")
    } else if same_text(base, "uint64_t") {
        Some("u64")
    } else if same_text(base, "int64_t") {
        Some("i64")
    } else if same_text(base, "char") {
        Some("std::os::raw::c_char")
    } else if same_text(base, "unsigned char") {
        Some("std::os::raw::c_uchar")
    } else if same_text(base, "signed char") {
        Some("std::os::raw::c_schar")
    } else if same_text(base, "unsigned short") || same_text(base, "unsigned short int") {
        Some("std::os::raw::c_ushort")
    } else if same_text(base, "short") || same_text(base, "signed short") || same_text(
        base,
        "short int",
    ) || same_text(base, "signed short int") {
        Some("std::os::raw::c_short")
    } else if same_text(base, "unsigned int") || same_text(base, "unsigned") {
        Some("std::os::raw::c_uint")
    } else if same_text(base, "int") || same_text(base, "signed int") || same_text(
        base,
        "signed",
    ) {
        Some("std::os::raw::c_int")
    } else if same_text(base, "unsigned long long int") || same_text(base, "unsigned long long") {
        Some("std::os::raw::c_ulonglong")
    } else if same_text(base, "long long int") || same_text(base, "long long") || same_text(
        base,
        "signed long long int",
    ) || same_text(base, "signed long long") {
        Some("std::os::raw::c_longlong")
    } else if same_text(base, "unsigned long int") || same_text(base, "unsigned long") {
        Some("std::os::raw::c_ulong")
    } else if same_text(base, "long int") || same_text(base, "long") {
        Some("std::os::raw::c_long")
    } else if same_text(base, "double") {
        Some("std::os::raw::c_double")
    } else if same_text(base, "float") {
        Some("std::os::raw::c_float")
    } else if same_text(base, "bool") {
        Some("bool")
    } else if same_text(base, "void") {
        Some("()")
    } else {
        None
    }
}

/// Whether one of the opaque types is called `name`.
pub fn address_exists(addresses: &Vec<Address>, name: &str) -> (r: bool)
    ensures
        r == names(views(addresses@)).contains(name@),
{
    let ghost all = names(views(addresses@));
    let mut i: usize = 0;
    while i < addresses.len()
        invariant
            i <= addresses.len(),
            all == names(views(addresses@)),
            forall|j: int| 0 <= j < i ==> all[j] != name@,
        decreases addresses.len() - i,
    {
        if same_text(addresses[i].name.as_str(), name) {
            assert(all[i as int] == name@);
            return true;
        }
        i = i + 1;
    }
    false
}

/// The token of the raw interface for the C type name `input`.
pub fn c_type_as_binding(input: &str, addresses: &Vec<Address>) -> (r: String)
    ensures
        r@ == binding(input@, names(views(addresses@))),
{
    let base = text_of(&trim(&chars_of(input)));
    match scalar_token(base.as_str()) {
        Some(token) => String::from_str(token),
        None => {
            if address_exists(addresses, base.as_str()) {
                String::from_str("std::os::raw::c_void")
            } else {
                struct_name(base.as_str())
            }
        },
    }
}

/// The type that safe code sees for the scalar token `input` of the raw
/// interface, and `None` for a token without scalar equivalent.
pub fn c_binding_into_rust(input: &str) -> (r: Option<String>)
    ensures
        view_opt(r) == surface(input@),
{
    if same_text(input, "std::os::raw::c_char") {
        Some(String::from_str("char"))
    } else if same_text(input, "std::os::raw::c_uchar") {
        Some(String::from_str("u8"))
    } else if same_text(input, "std::os::raw::c_schar") {
        Some(String::from_str("i8"))
    } else if same_text(input, "std::os::raw::c_ushort") {
        Some(String::from_str("u16"))
    } else if same_text(input, "std::os::raw::c_short") {
        Some(String::from_str("i16"))
    } else if same_text(input, "std::os::raw::c_uint") {
        Some(String::from_str("u32"))
    } else if same_text(input, "std::os::raw::c_int") {
        Some(String::from_str("i32"))
    } else if same_text(input, "std::os::raw::c_ulonglong") {
        Some(String::from_str("u64"))
    } else if same_text(input, "std::os::raw::c_longlong") {
        Some(String::from_str("i64"))
    } else if same_text(input, "std::os::raw::c_ulong") {
        Some(String::from_str("usize"))
    } else if same_text(input, "std::os::raw::c_long") {
        Some(String::from_str("isize"))
    } else if same_text(input, "std::os::raw::c_double") {
        Some(String::from_str("f64"))
    } else if same_text(input, "std::os::raw::c_float") {
        Some(String::from_str("f32"))
    } else if same_text(input, "()") || same_text(input, "bool") || same_text(input, "u8") || same_text(input, "i8") || same_text(input, "u16") || same_text(input, "i16") || same_text(input, "u32") || same_text(input, "i32") || same_text(input, "u64") || same_text(input, "i64") {
        Some(String::from_str(input))
    } else {
        None
    }
}

/// How safe code sees a value of the C type `ty`.
pub fn safe(ty: &str, addresses: &Vec<Address>) -> (r: SafeType<String>)
    ensures
        r@ == safe_type(ty@, names(views(addresses@))),
{
    let parts = shape(ty);
    let token = c_type_as_binding(parts.base.as_str(), addresses);
    match c_binding_into_rust(token.as_str()) {
        Some(name) => SafeType { name, wrapped: false },
        None => SafeType { name: struct_name(parts.base.as_str()), wrapped: true },
    }
}

/// The type of the raw interface for the C type `ty`.
pub fn raw(ty: &str, addresses: &Vec<Address>) -> (r: String)
    ensures
        r@ == raw_type(ty@, names(views(addresses@))),
{
    let parts = shape(ty);
    let mut r = String::new();
    let mut i: usize = 0;
    while i < parts.depth
        invariant
            i <= parts.depth,
            r@ == pointer_marks(i as nat, parts.constant),
        decreases parts.depth - i,
    {
        if parts.constant {
            r.append("*const ");
        } else {
            r.append("*mut ");
        }
        i = i + 1;
    }
    let token = c_type_as_binding(parts.base.as_str(), addresses);
    r.append(token.as_str());
    r
}

} // verus!
