//! The emitter: the assembled description as source text.

use crate::assemble::assemble;
use crate::assemble::assembled;
use crate::assemble::members_within;
use crate::assemble::modules_within;
use crate::assemble::placements;
use crate::assemble::slot_funcs;
use crate::assemble::Member;
use crate::assemble::Module;
use crate::assemble::ModuleView;
use crate::binding::bind_all;
use crate::binding::bound_all;
use crate::binding::FunctionBinding;
use crate::binding::FunctionBindingView;
use crate::error::Fault;
use crate::interpreter::interpret;
use crate::interpreter::interpretation;
use crate::interpreter::Arg;
use crate::interpreter::ArgKind;
use crate::interpreter::Finish;
use crate::interpreter::Output;
use crate::interpreter::OutputShape;
use crate::interpreter::ParamShape;
use crate::interpreter::PublicParam;
use crate::interpreter::SafeFunction;
use crate::interpreter::SafeFunctionView;
use crate::interpreter::Setup;
use crate::interpreter::SetupKind;
use crate::model::names;
use crate::model::view_opt;
use crate::model::Address;
use crate::model::AddressView;
use crate::model::Enum;
use crate::model::EnumVariant;
use crate::model::EnumVariantView;
use crate::model::EnumView;
use crate::model::SafeFFI;
use crate::model::SafeFFIView;
use crate::prototype::Prototype;
use crate::prototype::PrototypeView;
use crate::text::chars_of;
use crate::text::decimal;
use crate::text::lower_text;
use crate::text::push_char;
use crate::text::signed_decimal;
use crate::text::to_decimal;
use crate::text::to_lower;
use crate::text::to_signed_decimal;
use crate::text::to_upper;
use crate::text::upper_text;
use crate::text::views;
use crate::types::camel_case;
use crate::types::handle_name;
use crate::types::raw;
use crate::types::raw_type;
use crate::types::struct_name;
use crate::types::to_camel_case;
use vstd::prelude::*;
use vstd::string::StringExecFns;

verus! {

/// The constant that names the shared library file.
pub open spec fn constant_text(so_name: Seq<char>) -> Seq<char> {
    "const DL_API_SHARED_OBJECT_NAME: &[u8] = b\"lib"@ + so_name + "\\0\";\n\n"@
}

/// The constant that names the shared library file.
pub fn render_constant(so_name: &str) -> (r: String)
    ensures
        r@ == constant_text(so_name@),
{
    let mut r = String::from_str("const DL_API_SHARED_OBJECT_NAME: &[u8] = b\"lib");
    r.append(so_name);
    r.append("\\0\";\n\n");
    r
}

/// The lines of a documentation text, each later line behind `pad` and the
/// comment marker.
pub open spec fn doc_body_text(doc: Seq<char>, pad: Seq<char>) -> Seq<char>
    decreases doc.len(),
{
    if doc.len() == 0 {
        Seq::empty()
    } else if doc.last() == '\n' {
        doc_body_text(doc.drop_last(), pad) + "\n"@ + pad + "/// "@
    } else {
        doc_body_text(doc.drop_last(), pad).push(doc.last())
    }
}

/// The lines of a documentation text, each later line behind `pad` and the
/// comment marker.
pub fn render_doc_body(doc: &str, pad: &str) -> (r: String)
    ensures
        r@ == doc_body_text(doc@, pad@),
{
    let v = chars_of(doc);
    let mut r = String::new();
    let mut i: usize = 0;
    assert(v@.take(0) =~= Seq::<char>::empty());
    while i < v.len()
        invariant
            i <= v.len(),
            r@ == doc_body_text(v@.take(i as int), pad@),
        decreases v.len() - i,
    {
        proof {
            assert(v@.take(i + 1).drop_last() =~= v@.take(i as int));
            assert(v@.take(i + 1).last() == v@[i as int]);
        }
        if v[i] == '\n' {
            r.append("\n");
            r.append(pad);
            r.append("/// ");
        } else {
            push_char(&mut r, v[i]);
        }
        i = i + 1;
    }
    assert(v@.take(v.len() as int) =~= v@);
    r
}

/// A documentation comment behind `pad`, or nothing where there is no
/// documentation.
pub open spec fn doc_text(doc: Option<Seq<char>>, pad: Seq<char>) -> Seq<char> {
    match doc {
        Some(d) => pad + "/// "@ + doc_body_text(d, pad) + "\n"@,
        None => Seq::empty(),
    }
}

/// A documentation comment behind `pad`, or nothing where there is no
/// documentation.
pub fn render_doc(doc: &Option<String>, pad: &str) -> (r: String)
    ensures
        r@ == doc_text(view_opt(*doc), pad@),
{
    match doc {
        Some(d) => {
            let body = render_doc_body(d.as_str(), pad);
            let mut r = String::from_str(pad);
            r.append("/// ");
            r.append(body.as_str());
            r.append("\n");
            r
        },
        None => String::new(),
    }
}

/// The value of an enum variant, where it has one.
pub open spec fn value_text(value: Option<i32>) -> Seq<char> {
    match value {
        Some(x) => " = "@ + signed_decimal(x as int),
        None => Seq::empty(),
    }
}

/// The value of an enum variant, where it has one.
pub fn render_value(value: &Option<i32>) -> (r: String)
    ensures
        r@ == value_text(*value),
{
    match value {
        Some(x) => {
            let digits = to_signed_decimal(*x);
            let mut r = String::from_str(" = ");
            r.append(digits.as_str());
            r
        },
        None => String::new(),
    }
}

/// The representation attribute of an enum, where it names a type.
pub open spec fn repr_text(ty: Option<Seq<char>>) -> Seq<char> {
    match ty {
        Some(t) => "#[repr("@ + t + ")]\n"@,
        None => Seq::empty(),
    }
}

/// The representation attribute of an enum, where it names a type.
pub fn render_repr(ty: &Option<String>) -> (r: String)
    ensures
        r@ == repr_text(view_opt(*ty)),
{
    match ty {
        Some(t) => {
            let mut r = String::from_str("#[repr(");
            r.append(t.as_str());
            r.append(")]\n");
            r
        },
        None => String::new(),
    }
}

/// One variant of an enum.
pub open spec fn variant_text(v: EnumVariantView) -> Seq<char> {
    doc_text(v.doc, "    "@) + "    "@ + camel_case(v.name) + value_text(v.value) + ",\n"@
}

/// One variant of an enum.
pub fn render_variant(v: &EnumVariant) -> (r: String)
    ensures
        r@ == variant_text(v@),
{
    let doc = render_doc(&v.doc, "    ");
    let name = to_camel_case(v.name.as_str());
    let value = render_value(&v.value);
    let mut r = String::from_str(doc.as_str());
    r.append("    ");
    r.append(name.as_str());
    r.append(value.as_str());
    r.append(",\n");
    r
}

/// The variants of an enum.
pub open spec fn variants_text(items: Seq<EnumVariantView>) -> Seq<char>
    decreases items.len(),
{
    if items.len() == 0 {
        Seq::empty()
    } else {
        variants_text(items.drop_last()) + variant_text(items.last())
    }
}

/// The variants of an enum.
pub fn render_variants(items: &Vec<EnumVariant>) -> (r: String)
    ensures
        r@ == variants_text(views(items@)),
{
    let ghost all = views(items@);
    let mut r = String::new();
    let mut i: usize = 0;
    assert(all.take(0) =~= Seq::<EnumVariantView>::empty());
    while i < items.len()
        invariant
            i <= items.len(),
            all == views(items@),
            r@ == variants_text(all.take(i as int)),
        decreases items.len() - i,
    {
        proof {
            assert(all.take(i + 1).drop_last() =~= all.take(i as int));
            assert(all.take(i + 1).last() == items@[i as int]@);
        }
        let piece = render_variant(&items[i]);
        r.append(piece.as_str());
        i = i + 1;
    }
    assert(all.take(items.len() as int) =~= all);
    r
}

/// The declaration of an enum.
pub open spec fn enum_text(en: EnumView) -> Seq<char> {
    doc_text(en.doc, ""@) + repr_text(en.ty) + "#[repr(C)]\n#[non_exhaustive]\n#[derive(Copy, Clone, Debug, PartialEq)]\npub enum "@ + handle_name(en.name) + " {\n"@ + variants_text(en.variant) + "}\n\n"@
}

/// The declaration of an enum.
pub fn render_enum(en: &Enum) -> (r: String)
    ensures
        r@ == enum_text(en@),
{
    let doc = render_doc(&en.doc, "");
    let repr = render_repr(&en.ty);
    let name = struct_name(en.name.as_str());
    let variants = render_variants(&en.variant);
    let mut r = String::from_str(doc.as_str());
    r.append(repr.as_str());
    r.append("#[repr(C)]\n#[non_exhaustive]\n#[derive(Copy, Clone, Debug, PartialEq)]\npub enum ");
    r.append(name.as_str());
    r.append(" {\n");
    r.append(variants.as_str());
    r.append("}\n\n");
    r
}

/// The declarations of the enums.
pub open spec fn enums_text(items: Seq<EnumView>) -> Seq<char>
    decreases items.len(),
{
    if items.len() == 0 {
        Seq::empty()
    } else {
        enums_text(items.drop_last()) + enum_text(items.last())
    }
}

/// The declarations of the enums.
pub fn render_enums(items: &Vec<Enum>) -> (r: String)
    ensures
        r@ == enums_text(views(items@)),
{
    let ghost all = views(items@);
    let mut r = String::new();
    let mut i: usize = 0;
    assert(all.take(0) =~= Seq::<EnumView>::empty());
    while i < items.len()
        invariant
            i <= items.len(),
            all == views(items@),
            r@ == enums_text(all.take(i as int)),
        decreases items.len() - i,
    {
        proof {
            assert(all.take(i + 1).drop_last() =~= all.take(i as int));
            assert(all.take(i + 1).last() == items@[i as int]@);
        }
        let piece = render_enum(&items[i]);
        r.append(piece.as_str());
        i = i + 1;
    }
    assert(all.take(items.len() as int) =~= all);
    r
}

/// What the pointer of an opaque type points to: the struct that the
/// description names, or nothing that can be looked into.
pub open spec fn pointee_text(record: Option<Seq<char>>) -> Seq<char> {
    match record {
        Some(r) => r,
        None => "std::os::raw::c_void"@,
    }
}

/// What the pointer of an opaque type points to.
pub fn render_pointee(record: &Option<String>) -> (r: String)
    ensures
        r@ == pointee_text(view_opt(*record)),
{
    match record {
        Some(r) => r.clone(),
        None => String::from_str("std::os::raw::c_void"),
    }
}

/// The declaration of the wrapper of an opaque type.
pub open spec fn address_text(ad: AddressView) -> Seq<char> {
    doc_text(ad.doc, ""@) + "pub struct "@ + handle_name(ad.name) + "(*mut "@ + pointee_text(ad.record) + ");\n\n"@
}

/// The declaration of the wrapper of an opaque type.
pub fn render_address(ad: &Address) -> (r: String)
    ensures
        r@ == address_text(ad@),
{
    let doc = render_doc(&ad.doc, "");
    let name = struct_name(ad.name.as_str());
    let pointee = render_pointee(&ad.record);
    let mut r = String::from_str(doc.as_str());
    r.append("pub struct ");
    r.append(name.as_str());
    r.append("(*mut ");
    r.append(pointee.as_str());
    r.append(");\n\n");
    r
}

/// The declarations of the wrappers of the opaque types.
pub open spec fn addresses_text(items: Seq<AddressView>) -> Seq<char>
    decreases items.len(),
{
    if items.len() == 0 {
        Seq::empty()
    } else {
        addresses_text(items.drop_last()) + address_text(items.last())
    }
}

/// The declarations of the wrappers of the opaque types.
pub fn render_addresses(items: &Vec<Address>) -> (r: String)
    ensures
        r@ == addresses_text(views(items@)),
{
    let ghost all = views(items@);
    let mut r = String::new();
    let mut i: usize = 0;
    assert(all.take(0) =~= Seq::<AddressView>::empty());
    while i < items.len()
        invariant
            i <= items.len(),
            all == views(items@),
            r@ == addresses_text(all.take(i as int)),
        decreases items.len() - i,
    {
        proof {
            assert(all.take(i + 1).drop_last() =~= all.take(i as int));
            assert(all.take(i + 1).last() == items@[i as int]@);
        }
        let piece = render_address(&items[i]);
        r.append(piece.as_str());
        i = i + 1;
    }
    assert(all.take(items.len() as int) =~= all);
    r
}

/// The name of the slot `slot`, which holds the resolved symbol of the function called `name`.
pub open spec fn slot_name_text(slot: nat, name: Seq<char>) -> Seq<char> {
    "FN_"@ + decimal(slot) + "_"@ + upper_text(name)
}

/// The name of the slot `slot`, which holds the resolved symbol of the function called `name`.
pub fn render_slot_name(slot: usize, name: &str) -> (r: String)
    ensures
        r@ == slot_name_text(slot as nat, name@),
{
    let number = to_decimal(slot as u64);
    let upper = to_upper(name);
    let mut r = String::from_str("FN_");
    r.append(number.as_str());
    r.append("_");
    r.append(upper.as_str());
    r
}

/// One parameter of the raw function, as name and raw type.
pub open spec fn raw_param_text(p: (Seq<char>, Seq<char>), addresses: Seq<Seq<char>>) -> Seq<char> {
    "        "@ + p.1 + ": "@ + raw_type(p.0, addresses) + ",\n"@
}

/// One parameter of the raw function, as name and raw type.
pub fn render_raw_param(p: &(String, String), addresses: &Vec<Address>) -> (r: String)
    ensures
        r@ == raw_param_text(p@, names(views(addresses@))),
{
    let ty = raw(p.0.as_str(), addresses);
    let mut r = String::from_str("        ");
    r.append(p.1.as_str());
    r.append(": ");
    r.append(ty.as_str());
    r.append(",\n");
    r
}

/// The parameters of the raw function.
pub open spec fn raw_params_text(items: Seq<(Seq<char>, Seq<char>)>, addresses: Seq<Seq<char>>) -> Seq<char>
    decreases items.len(),
{
    if items.len() == 0 {
        Seq::empty()
    } else {
        raw_params_text(items.drop_last(), addresses) + raw_param_text(items.last(), addresses)
    }
}

/// The parameters of the raw function.
pub fn render_raw_params(items: &Vec<(String, String)>, addresses: &Vec<Address>) -> (r: String)
    ensures
        r@ == raw_params_text(views(items@), names(views(addresses@))),
{
    let ghost all = views(items@);
    let mut r = String::new();
    let mut i: usize = 0;
    assert(all.take(0) =~= Seq::<(Seq<char>, Seq<char>)>::empty());
    while i < items.len()
        invariant
            i <= items.len(),
            all == views(items@),
            r@ == raw_params_text(all.take(i as int), names(views(addresses@))),
        decreases items.len() - i,
    {
        proof {
            assert(all.take(i + 1).drop_last() =~= all.take(i as int));
            assert(all.take(i + 1).last() == items@[i as int]@);
        }
        let piece = render_raw_param(&items[i], addresses);
        r.append(piece.as_str());
        i = i + 1;
    }
    assert(all.take(items.len() as int) =~= all);
    r
}

/// The declaration of the slot `slot` for the function `proto`.
pub open spec fn static_text(slot: nat, proto: PrototypeView, addresses: Seq<Seq<char>>) -> Seq<char> {
    "static mut "@ + slot_name_text(slot, proto.name) + ":\n    std::mem::MaybeUninit<extern fn(\n"@ + raw_params_text(proto.pars, addresses) + "    ) -> "@ + raw_type(proto.ret, addresses) + "> = std::mem::MaybeUninit::uninit();\n"@
}

/// The declaration of the slot `slot` for the function `proto`.
pub fn render_static(slot: usize, proto: &Prototype, addresses: &Vec<Address>) -> (r: String)
    ensures
        r@ == static_text(slot as nat, proto@, names(views(addresses@))),
{
    let name = render_slot_name(slot, proto.name.as_str());
    let pars = render_raw_params(&proto.pars, addresses);
    let ret = raw(proto.ret.as_str(), addresses);
    let mut r = String::from_str("static mut ");
    r.append(name.as_str());
    r.append(":\n    std::mem::MaybeUninit<extern fn(\n");
    r.append(pars.as_str());
    r.append("    ) -> ");
    r.append(ret.as_str());
    r.append("> = std::mem::MaybeUninit::uninit();\n");
    r
}

/// The declarations of the slots, in the order of their numbers. `slots`
/// gives for each slot the index of its function.
pub open spec fn statics_text(
    slots: Seq<usize>,
    bindings: Seq<FunctionBindingView>,
    addresses: Seq<Seq<char>>,
) -> Seq<char>
    decreases slots.len(),
{
    if slots.len() == 0 {
        Seq::empty()
    } else {
        statics_text(slots.drop_last(), bindings, addresses) + static_text(
            (slots.len() - 1) as nat,
            bindings[slots.last() as int].proto,
            addresses,
        )
    }
}

/// The declarations of the slots, in the order of their numbers.
pub fn render_statics(slots: &Vec<usize>, bindings: &Vec<FunctionBinding>, addresses: &Vec<Address>) -> (r:
    String)
    requires
        forall|k: int| 0 <= k < slots.len() ==> slots@[k] < bindings.len(),
    ensures
        r@ == statics_text(slots@, views(bindings@), names(views(addresses@))),
{
    let ghost bs = views(bindings@);
    let ghost addrs = names(views(addresses@));
    let mut r = String::new();
    let mut i: usize = 0;
    assert(slots@.take(0) =~= Seq::<usize>::empty());
    while i < slots.len()
        invariant
            i <= slots.len(),
            bs == views(bindings@),
            addrs == names(views(addresses@)),
            forall|k: int| 0 <= k < slots.len() ==> slots@[k] < bindings.len(),
            r@ == statics_text(slots@.take(i as int), bs, addrs),
        decreases slots.len() - i,
    {
        proof {
            assert(slots@.take(i + 1).drop_last() =~= slots@.take(i as int));
            assert(slots@.take(i + 1).last() == slots@[i as int]);
            assert(bs[slots@[i as int] as int] == bindings@[slots@[i as int] as int]@);
        }
        let piece = render_static(i, &bindings[slots[i]].proto, addresses);
        r.append(piece.as_str());
        i = i + 1;
    }
    assert(slots@.take(slots.len() as int) =~= slots@);
    r
}

/// The type of a parameter of the safe function.
pub open spec fn param_type_text(p: PublicParam<Seq<char>>) -> Seq<char> {
    match p.shape {
        ParamShape::Text => "&std::ffi::CStr"@,
        ParamShape::RawHandle => "*mut std::os::raw::c_void"@,
        ParamShape::Value => p.ty,
        ParamShape::Handle => "&"@ + p.ty,
        ParamShape::MutValue => "&mut "@ + p.ty,
        ParamShape::OptMutValue => "Option<&mut "@ + p.ty + ">"@,
        ParamShape::MutHandle => "&mut "@ + p.ty,
        ParamShape::Slice => "&["@ + p.ty + "]"@,
        ParamShape::Buffer => "&mut Vec<"@ + p.ty + ">"@,
    }
}

/// The type of a parameter of the safe function.
pub fn render_param_type(p: &PublicParam<String>) -> (r: String)
    ensures
        r@ == param_type_text(p@),
{
    match p.shape {
        ParamShape::Text => {
            let mut r = String::from_str("&std::ffi::CStr");
            r
        },
        ParamShape::RawHandle => {
            let mut r = String::from_str("*mut std::os::raw::c_void");
            r
        },
        ParamShape::Value => {
            let mut r = String::from_str(p.ty.as_str());
            r
        },
        ParamShape::Handle => {
            let mut r = String::from_str("&");
            r.append(p.ty.as_str());
            r
        },
        ParamShape::MutValue => {
            let mut r = String::from_str("&mut ");
            r.append(p.ty.as_str());
            r
        },
        ParamShape::OptMutValue => {
            let mut r = String::from_str("Option<&mut ");
            r.append(p.ty.as_str());
            r.append(">");
            r
        },
        ParamShape::MutHandle => {
            let mut r = String::from_str("&mut ");
            r.append(p.ty.as_str());
            r
        },
        ParamShape::Slice => {
            let mut r = String::from_str("&[");
            r.append(p.ty.as_str());
            r.append("]");
            r
        },
        ParamShape::Buffer => {
            let mut r = String::from_str("&mut Vec<");
            r.append(p.ty.as_str());
            r.append(">");
            r
        },
    }
}

/// One parameter of the safe function.
pub open spec fn param_text(p: PublicParam<Seq<char>>) -> Seq<char> {
    "        "@ + p.name + ": "@ + param_type_text(p) + ",\n"@
}

/// One parameter of the safe function.
pub fn render_param(p: &PublicParam<String>) -> (r: String)
    ensures
        r@ == param_text(p@),
{
    let ty = render_param_type(p);
    let mut r = String::from_str("        ");
    r.append(p.name.as_str());
    r.append(": ");
    r.append(ty.as_str());
    r.append(",\n");
    r
}

/// The parameters of the safe function.
pub open spec fn params_text(items: Seq<PublicParam<Seq<char>>>) -> Seq<char>
    decreases items.len(),
{
    if items.len() == 0 {
        Seq::empty()
    } else {
        params_text(items.drop_last()) + param_text(items.last())
    }
}

/// The parameters of the safe function.
pub fn render_params(items: &Vec<PublicParam<String>>) -> (r: String)
    ensures
        r@ == params_text(views(items@)),
{
    let ghost all = views(items@);
    let mut r = String::new();
    let mut i: usize = 0;
    assert(all.take(0) =~= Seq::<PublicParam<Seq<char>>>::empty());
    while i < items.len()
        invariant
            i <= items.len(),
            all == views(items@),
            r@ == params_text(all.take(i as int)),
        decreases items.len() - i,
    {
        proof {
            assert(all.take(i + 1).drop_last() =~= all.take(i as int));
            assert(all.take(i + 1).last() == items@[i as int]@);
        }
        let piece = render_param(&items[i]);
        r.append(piece.as_str());
        i = i + 1;
    }
    assert(all.take(items.len() as int) =~= all);
    r
}

/// One step before the raw call.
pub open spec fn setup_text(s: Setup<Seq<char>>) -> Seq<char> {
    match s.kind {
        SetupKind::Slot => "            let mut "@ + s.name + " = std::mem::MaybeUninit::uninit();\n"@,
        SetupKind::Temp => "            let mut __"@ + s.name + ": _ = *"@ + s.name + " as _;\n"@,
        SetupKind::OptTemp => "            let mut __"@ + s.name + ": _ = if let Some(_temp) = "@ + s.name + ".iter().next() { Some(**_temp as _) } else { None };\n"@,
        SetupKind::Live => "            if "@ + s.name + ".0.is_null() { panic!(\"Object free'd twice!\") }\n"@,
    }
}

/// One step before the raw call.
pub fn render_setup(s: &Setup<String>) -> (r: String)
    ensures
        r@ == setup_text(s@),
{
    match s.kind {
        SetupKind::Slot => {
            let mut r = String::from_str("            let mut ");
            r.append(s.name.as_str());
            r.append(" = std::mem::MaybeUninit::uninit();\n");
            r
        },
        SetupKind::Temp => {
            let mut r = String::from_str("            let mut __");
            r.append(s.name.as_str());
            r.append(": _ = *");
            r.append(s.name.as_str());
            r.append(" as _;\n");
            r
        },
        SetupKind::OptTemp => {
            let mut r = String::from_str("            let mut __");
            r.append(s.name.as_str());
            r.append(": _ = if let Some(_temp) = ");
            r.append(s.name.as_str());
            r.append(".iter().next() { Some(**_temp as _) } else { None };\n");
            r
        },
        SetupKind::Live => {
            let mut r = String::from_str("            if ");
            r.append(s.name.as_str());
            r.append(".0.is_null() { panic!(\"Object free'd twice!\") }\n");
            r
        },
    }
}

/// The steps before the raw call.
pub open spec fn setups_text(items: Seq<Setup<Seq<char>>>) -> Seq<char>
    decreases items.len(),
{
    if items.len() == 0 {
        Seq::empty()
    } else {
        setups_text(items.drop_last()) + setup_text(items.last())
    }
}

/// The steps before the raw call.
pub fn render_setups(items: &Vec<Setup<String>>) -> (r: String)
    ensures
        r@ == setups_text(views(items@)),
{
    let ghost all = views(items@);
    let mut r = String::new();
    let mut i: usize = 0;
    assert(all.take(0) =~= Seq::<Setup<Seq<char>>>::empty());
    while i < items.len()
        invariant
            i <= items.len(),
            all == views(items@),
            r@ == setups_text(all.take(i as int)),
        decreases items.len() - i,
    {
        proof {
            assert(all.take(i + 1).drop_last() =~= all.take(i as int));
            assert(all.take(i + 1).last() == items@[i as int]@);
        }
        let piece = render_setup(&items[i]);
        r.append(piece.as_str());
        i = i + 1;
    }
    assert(all.take(items.len() as int) =~= all);
    r
}

/// One argument of the raw call.
pub open spec fn arg_text(a: Arg<Seq<char>>) -> Seq<char> {
    match a.kind {
        ArgKind::WritePtr => "                "@ + a.name + ".as_mut_ptr(),\n"@,
        ArgKind::ReadPtr => "                "@ + a.name + ".as_ptr(),\n"@,
        ArgKind::Verbatim => "                "@ + a.name + ",\n"@,
        ArgKind::Inner => "                "@ + a.name + ".0,\n"@,
        ArgKind::Cast => "                "@ + a.name + " as _,\n"@,
        ArgKind::TempAddr => "                &mut __"@ + a.name + ",\n"@,
        ArgKind::OptTempAddr => "                if let Some(ref mut _temp) = __"@ + a.name + " { _temp } else { std::ptr::null_mut() },\n"@,
        ArgKind::Len => "                "@ + a.name + ".len() as _,\n"@,
        ArgKind::Capacity => "                "@ + a.name + ".capacity() as _,\n"@,
    }
}

/// One argument of the raw call.
pub fn render_arg(a: &Arg<String>) -> (r: String)
    ensures
        r@ == arg_text(a@),
{
    match a.kind {
        ArgKind::WritePtr => {
            let mut r = String::from_str("                ");
            r.append(a.name.as_str());
            r.append(".as_mut_ptr(),\n");
            r
        },
        ArgKind::ReadPtr => {
            let mut r = String::from_str("                ");
            r.append(a.name.as_str());
            r.append(".as_ptr(),\n");
            r
        },
        ArgKind::Verbatim => {
            let mut r = String::from_str("                ");
            r.append(a.name.as_str());
            r.append(",\n");
            r
        },
        ArgKind::Inner => {
            let mut r = String::from_str("                ");
            r.append(a.name.as_str());
            r.append(".0,\n");
            r
        },
        ArgKind::Cast => {
            let mut r = String::from_str("                ");
            r.append(a.name.as_str());
            r.append(" as _,\n");
            r
        },
        ArgKind::TempAddr => {
            let mut r = String::from_str("                &mut __");
            r.append(a.name.as_str());
            r.append(",\n");
            r
        },
        ArgKind::OptTempAddr => {
            let mut r = String::from_str("                if let Some(ref mut _temp) = __");
            r.append(a.name.as_str());
            r.append(" { _temp } else { std::ptr::null_mut() },\n");
            r
        },
        ArgKind::Len => {
            let mut r = String::from_str("                ");
            r.append(a.name.as_str());
            r.append(".len() as _,\n");
            r
        },
        ArgKind::Capacity => {
            let mut r = String::from_str("                ");
            r.append(a.name.as_str());
            r.append(".capacity() as _,\n");
            r
        },
    }
}

/// The arguments of the raw call, by position.
pub open spec fn args_text(items: Seq<Arg<Seq<char>>>) -> Seq<char>
    decreases items.len(),
{
    if items.len() == 0 {
        Seq::empty()
    } else {
        args_text(items.drop_last()) + arg_text(items.last())
    }
}

/// The arguments of the raw call, by position.
pub fn render_args(items: &Vec<Arg<String>>) -> (r: String)
    ensures
        r@ == args_text(views(items@)),
{
    let ghost all = views(items@);
    let mut r = String::new();
    let mut i: usize = 0;
    assert(all.take(0) =~= Seq::<Arg<Seq<char>>>::empty());
    while i < items.len()
        invariant
            i <= items.len(),
            all == views(items@),
            r@ == args_text(all.take(i as int)),
        decreases items.len() - i,
    {
        proof {
            assert(all.take(i + 1).drop_last() =~= all.take(i as int));
            assert(all.take(i + 1).last() == items@[i as int]@);
        }
        let piece = render_arg(&items[i]);
        r.append(piece.as_str());
        i = i + 1;
    }
    assert(all.take(items.len() as int) =~= all);
    r
}

/// Where the length of a buffer comes from: the parameter named, or the raw
/// return value.
pub open spec fn source_text(source: Option<Seq<char>>) -> Seq<char> {
    match source {
        Some(s) => s,
        None => "__ret"@,
    }
}

/// Where the length of a buffer comes from.
pub fn render_source(source: &Option<String>) -> (r: String)
    ensures
        r@ == source_text(view_opt(*source)),
{
    match source {
        Some(s) => s.clone(),
        None => String::from_str("__ret"),
    }
}

/// One step after the raw call.
pub open spec fn finish_text(f: Finish<Seq<char>>) -> Seq<char> {
    match f {
        Finish::Init(n) => "            let "@ + n + " = "@ + n + ".assume_init();\n"@,
        Finish::FailIf(c, literal) => "            if __ret "@ + c.symbol() + " "@ + literal
            + " { return Err(__ret as _) };\n"@,
        Finish::Store(n) => "            *"@ + n + " = __"@ + n + " as _;\n"@,
        Finish::OptStore(n) => "            if let Some(_temp) = "@ + n + " { *_temp = __"@ + n
            + ".unwrap() as _; }\n"@,
        Finish::Null(n) => "            "@ + n + ".0 = std::ptr::null_mut();\n"@,
        Finish::SetLen(n, source) => "            "@ + n + ".set_len("@ + source_text(source)
            + " as _);\n"@,
    }
}

/// One step after the raw call.
pub fn render_finish(f: &Finish<String>) -> (r: String)
    ensures
        r@ == finish_text(f@),
{
    match f {
        Finish::Init(n) => {
            let mut r = String::from_str("            let ");
            r.append(n.as_str());
            r.append(" = ");
            r.append(n.as_str());
            r.append(".assume_init();\n");
            r
        },
        Finish::FailIf(c, literal) => {
            let mut r = String::from_str("            if __ret ");
            r.append(c.text());
            r.append(" ");
            r.append(literal.as_str());
            r.append(" { return Err(__ret as _) };\n");
            r
        },
        Finish::Store(n) => {
            let mut r = String::from_str("            *");
            r.append(n.as_str());
            r.append(" = __");
            r.append(n.as_str());
            r.append(" as _;\n");
            r
        },
        Finish::OptStore(n) => {
            let mut r = String::from_str("            if let Some(_temp) = ");
            r.append(n.as_str());
            r.append(" { *_temp = __");
            r.append(n.as_str());
            r.append(".unwrap() as _; }\n");
            r
        },
        Finish::Null(n) => {
            let mut r = String::from_str("            ");
            r.append(n.as_str());
            r.append(".0 = std::ptr::null_mut();\n");
            r
        },
        Finish::SetLen(n, source) => {
            let from = render_source(source);
            let mut r = String::from_str("            ");
            r.append(n.as_str());
            r.append(".set_len(");
            r.append(from.as_str());
            r.append(" as _);\n");
            r
        },
    }
}

/// The steps after the raw call.
pub open spec fn finishes_text(items: Seq<Finish<Seq<char>>>) -> Seq<char>
    decreases items.len(),
{
    if items.len() == 0 {
        Seq::empty()
    } else {
        finishes_text(items.drop_last()) + finish_text(items.last())
    }
}

/// The steps after the raw call.
pub fn render_finishes(items: &Vec<Finish<String>>) -> (r: String)
    ensures
        r@ == finishes_text(views(items@)),
{
    let ghost all = views(items@);
    let mut r = String::new();
    let mut i: usize = 0;
    assert(all.take(0) =~= Seq::<Finish<Seq<char>>>::empty());
    while i < items.len()
        invariant
            i <= items.len(),
            all == views(items@),
            r@ == finishes_text(all.take(i as int)),
        decreases items.len() - i,
    {
        proof {
            assert(all.take(i + 1).drop_last() =~= all.take(i as int));
            assert(all.take(i + 1).last() == items@[i as int]@);
        }
        let piece = render_finish(&items[i]);
        r.append(piece.as_str());
        i = i + 1;
    }
    assert(all.take(items.len() as int) =~= all);
    r
}

/// The type of a result of the safe function.
pub open spec fn output_type_text(o: Output<Seq<char>>) -> Seq<char> {
    match o.shape {
        OutputShape::RawPointer => "*mut std::os::raw::c_void"@,
        OutputShape::Value => o.ty,
        OutputShape::Handle => o.ty,
    }
}

/// The type of a result of the safe function.
pub fn render_output_type(o: &Output<String>) -> (r: String)
    ensures
        r@ == output_type_text(o@),
{
    match o.shape {
        OutputShape::RawPointer => {
            let mut r = String::from_str("*mut std::os::raw::c_void");
            r
        },
        OutputShape::Value => {
            let mut r = String::from_str(o.ty.as_str());
            r
        },
        OutputShape::Handle => {
            let mut r = String::from_str(o.ty.as_str());
            r
        },
    }
}

/// The expression for a result of the safe function.
pub open spec fn output_value_text(o: Output<Seq<char>>) -> Seq<char> {
    match o.shape {
        OutputShape::RawPointer => source_text(o.name) + " as _"@,
        OutputShape::Value => source_text(o.name) + " as _"@,
        OutputShape::Handle => o.ty + "("@ + source_text(o.name) + ") as _"@,
    }
}

/// The expression for a result of the safe function.
pub fn render_output_value(o: &Output<String>) -> (r: String)
    ensures
        r@ == output_value_text(o@),
{
    let from = render_source(&o.name);
    match o.shape {
        OutputShape::RawPointer => {
            let mut r = String::from_str(from.as_str());
            r.append(" as _");
            r
        },
        OutputShape::Value => {
            let mut r = String::from_str(from.as_str());
            r.append(" as _");
            r
        },
        OutputShape::Handle => {
            let mut r = String::from_str(o.ty.as_str());
            r.append("(");
            r.append(from.as_str());
            r.append(") as _");
            r
        },
    }
}

/// The type of a result as a member of a tuple.
pub open spec fn member_type_text(o: Output<Seq<char>>) -> Seq<char> {
    output_type_text(o) + ","@
}

/// The type of a result as a member of a tuple.
pub fn render_member_type(o: &Output<String>) -> (r: String)
    ensures
        r@ == member_type_text(o@),
{
    let ty = render_output_type(o);
    let mut r = String::from_str(ty.as_str());
    r.append(",");
    r
}

/// The types of the members of a tuple of results.
pub open spec fn member_types_text(items: Seq<Output<Seq<char>>>) -> Seq<char>
    decreases items.len(),
{
    if items.len() == 0 {
        Seq::empty()
    } else {
        member_types_text(items.drop_last()) + member_type_text(items.last())
    }
}

/// The types of the members of a tuple of results.
pub fn render_member_types(items: &Vec<Output<String>>) -> (r: String)
    ensures
        r@ == member_types_text(views(items@)),
{
    let ghost all = views(items@);
    let mut r = String::new();
    let mut i: usize = 0;
    assert(all.take(0) =~= Seq::<Output<Seq<char>>>::empty());
    while i < items.len()
        invariant
            i <= items.len(),
            all == views(items@),
            r@ == member_types_text(all.take(i as int)),
        decreases items.len() - i,
    {
        proof {
            assert(all.take(i + 1).drop_last() =~= all.take(i as int));
            assert(all.take(i + 1).last() == items@[i as int]@);
        }
        let piece = render_member_type(&items[i]);
        r.append(piece.as_str());
        i = i + 1;
    }
    assert(all.take(items.len() as int) =~= all);
    r
}

/// The expression of a result as a member of a tuple.
pub open spec fn member_value_text(o: Output<Seq<char>>) -> Seq<char> {
    output_value_text(o) + ","@
}

/// The expression of a result as a member of a tuple.
pub fn render_member_value(o: &Output<String>) -> (r: String)
    ensures
        r@ == member_value_text(o@),
{
    let value = render_output_value(o);
    let mut r = String::from_str(value.as_str());
    r.append(",");
    r
}

/// The expressions of the members of a tuple of results.
pub open spec fn member_values_text(items: Seq<Output<Seq<char>>>) -> Seq<char>
    decreases items.len(),
{
    if items.len() == 0 {
        Seq::empty()
    } else {
        member_values_text(items.drop_last()) + member_value_text(items.last())
    }
}

/// The expressions of the members of a tuple of results.
pub fn render_member_values(items: &Vec<Output<String>>) -> (r: String)
    ensures
        r@ == member_values_text(views(items@)),
{
    let ghost all = views(items@);
    let mut r = String::new();
    let mut i: usize = 0;
    assert(all.take(0) =~= Seq::<Output<Seq<char>>>::empty());
    while i < items.len()
        invariant
            i <= items.len(),
            all == views(items@),
            r@ == member_values_text(all.take(i as int)),
        decreases items.len() - i,
    {
        proof {
            assert(all.take(i + 1).drop_last() =~= all.take(i as int));
            assert(all.take(i + 1).last() == items@[i as int]@);
        }
        let piece = render_member_value(&items[i]);
        r.append(piece.as_str());
        i = i + 1;
    }
    assert(all.take(items.len() as int) =~= all);
    r
}

/// The type of the results together: that of the only result, or a tuple
/// of none or of several.
pub open spec fn results_type_text(outputs: Seq<Output<Seq<char>>>) -> Seq<char> {
    if outputs.len() == 1 {
        output_type_text(outputs[0])
    } else {
        "("@ + member_types_text(outputs) + ")"@
    }
}

/// The type of the results together.
pub fn render_results_type(outputs: &Vec<Output<String>>) -> (r: String)
    ensures
        r@ == results_type_text(views(outputs@)),
{
    if outputs.len() == 1 {
        render_output_type(&outputs[0])
    } else {
        let members = render_member_types(outputs);
        let mut r = String::from_str("(");
        r.append(members.as_str());
        r.append(")");
        r
    }
}

/// The expression of the results together.
pub open spec fn results_value_text(outputs: Seq<Output<Seq<char>>>) -> Seq<char> {
    if outputs.len() == 1 {
        output_value_text(outputs[0])
    } else {
        "("@ + member_values_text(outputs) + ")"@
    }
}

/// The expression of the results together.
pub fn render_results_value(outputs: &Vec<Output<String>>) -> (r: String)
    ensures
        r@ == results_value_text(views(outputs@)),
{
    if outputs.len() == 1 {
        render_output_value(&outputs[0])
    } else {
        let members = render_member_values(outputs);
        let mut r = String::from_str("(");
        r.append(members.as_str());
        r.append(")");
        r
    }
}

/// The return type of the safe function: the type of its results, inside a
/// `Result` with the error type where the function can fail.
pub open spec fn return_type_text(f: SafeFunctionView) -> Seq<char> {
    match f.failure {
        Some(e) => "Result<"@ + results_type_text(f.outputs) + ", "@ + e + ">"@,
        None => results_type_text(f.outputs),
    }
}

/// The return type of the safe function.
pub fn render_return_type(f: &SafeFunction) -> (r: String)
    ensures
        r@ == return_type_text(f@),
{
    let results = render_results_type(&f.outputs);
    match &f.failure {
        Some(e) => {
            let mut r = String::from_str("Result<");
            r.append(results.as_str());
            r.append(", ");
            r.append(e.as_str());
            r.append(">");
            r
        },
        None => results,
    }
}

/// The last expression of the safe function: its results, inside `Ok`
/// where the function can fail.
pub open spec fn return_value_text(f: SafeFunctionView) -> Seq<char> {
    match f.failure {
        Some(_) => "Ok("@ + results_value_text(f.outputs) + ")"@,
        None => results_value_text(f.outputs),
    }
}

/// The last expression of the safe function.
pub fn render_return_value(f: &SafeFunction) -> (r: String)
    ensures
        r@ == return_value_text(f@),
{
    let results = render_results_value(&f.outputs);
    match &f.failure {
        Some(_) => {
            let mut r = String::from_str("Ok(");
            r.append(results.as_str());
            r.append(")");
            r
        },
        None => results,
    }
}

/// The method of a module for the function `b` with the safe function `f`, on the slot `slot`.
pub open spec fn method_text(slot: nat, b: FunctionBindingView, f: SafeFunctionView) -> Seq<char> {
    doc_text(b.doc, "    "@) + "    pub fn "@ + lower_text(b.proto.name) + "(&self,\n"@ + params_text(f.params) + "    ) -> "@ + return_type_text(f) + "\n    {\n        unsafe {\n"@ + setups_text(f.preamble) + "            let __ret = (("@ + slot_name_text(slot, b.proto.name) + ").assume_init())(\n"@ + args_text(f.args) + "            );\n"@ + finishes_text(f.postamble) + "            "@ + return_value_text(f) + "\n        }\n    }\n"@
}

/// The method of a module for the function `b` with the safe function `f`, on the slot `slot`.
pub fn render_method(slot: usize, b: &FunctionBinding, f: &SafeFunction) -> (r: String)
    ensures
        r@ == method_text(slot as nat, b@, f@),
{
    let doc = render_doc(&b.doc, "    ");
    let name = to_lower(b.proto.name.as_str());
    let params = render_params(&f.params);
    let ret = render_return_type(f);
    let before = render_setups(&f.preamble);
    let global = render_slot_name(slot, b.proto.name.as_str());
    let args = render_args(&f.args);
    let after = render_finishes(&f.postamble);
    let value = render_return_value(f);
    let mut r = String::from_str(doc.as_str());
    r.append("    pub fn ");
    r.append(name.as_str());
    r.append("(&self,\n");
    r.append(params.as_str());
    r.append("    ) -> ");
    r.append(ret.as_str());
    r.append("\n    {\n        unsafe {\n");
    r.append(before.as_str());
    r.append("            let __ret = ((");
    r.append(global.as_str());
    r.append(").assume_init())(\n");
    r.append(args.as_str());
    r.append("            );\n");
    r.append(after.as_str());
    r.append("            ");
    r.append(value.as_str());
    r.append("\n        }\n    }\n");
    r
}

/// The line of a module's constructor that resolves the symbol of the function called `name` into the slot `slot`.
pub open spec fn load_text(slot: nat, name: Seq<char>) -> Seq<char> {
    "            "@ + slot_name_text(slot, name) + " = std::mem::MaybeUninit::new(std::mem::transmute(sym(&dll, b\""@ + name + "\\0\").ok_or(Error::DoesntExist(\""@ + name + "\"))?.as_ptr()));\n"@
}

/// The line of a module's constructor that resolves the symbol of the function called `name` into the slot `slot`.
pub fn render_load(slot: usize, name: &str) -> (r: String)
    ensures
        r@ == load_text(slot as nat, name@),
{
    let global = render_slot_name(slot, name);
    let mut r = String::from_str("            ");
    r.append(global.as_str());
    r.append(" = std::mem::MaybeUninit::new(std::mem::transmute(sym(&dll, b\"");
    r.append(name);
    r.append("\\0\").ok_or(Error::DoesntExist(\"");
    r.append(name);
    r.append("\"))?.as_ptr()));\n");
    r
}

/// The lines of a module's constructor that resolve the symbols of its
/// members.
pub open spec fn loads_text(members: Seq<Member>, bindings: Seq<FunctionBindingView>) -> Seq<char>
    decreases members.len(),
{
    if members.len() == 0 {
        Seq::empty()
    } else {
        loads_text(members.drop_last(), bindings) + load_text(
            members.last().slot as nat,
            bindings[members.last().func as int].proto.name,
        )
    }
}

/// The lines of a module's constructor that resolve the symbols of its
/// members.
pub fn render_loads(members: &Vec<Member>, bindings: &Vec<FunctionBinding>) -> (r: String)
    requires
        members_within(members@, bindings.len() as nat),
    ensures
        r@ == loads_text(members@, views(bindings@)),
{
    let ghost bs = views(bindings@);
    let mut r = String::new();
    let mut i: usize = 0;
    assert(members@.take(0) =~= Seq::<Member>::empty());
    while i < members.len()
        invariant
            i <= members.len(),
            bs == views(bindings@),
            members_within(members@, bindings.len() as nat),
            r@ == loads_text(members@.take(i as int), bs),
        decreases members.len() - i,
    {
        let m = members[i];
        proof {
            assert(members@.take(i + 1).drop_last() =~= members@.take(i as int));
            assert(members@.take(i + 1).last() == m);
            assert(members@[i as int].func < bindings.len());
            assert(bs[m.func as int] == bindings@[m.func as int]@);
        }
        let piece = render_load(m.slot, bindings[m.func].proto.name.as_str());
        r.append(piece.as_str());
        i = i + 1;
    }
    assert(members@.take(members.len() as int) =~= members@);
    r
}

/// The methods of a module, one for each member.
pub open spec fn methods_text(
    members: Seq<Member>,
    bindings: Seq<FunctionBindingView>,
    functions: Seq<SafeFunctionView>,
) -> Seq<char>
    decreases members.len(),
{
    if members.len() == 0 {
        Seq::empty()
    } else {
        methods_text(members.drop_last(), bindings, functions) + method_text(
            members.last().slot as nat,
            bindings[members.last().func as int],
            functions[members.last().func as int],
        )
    }
}

/// The methods of a module, one for each member.
pub fn render_methods(
    members: &Vec<Member>,
    bindings: &Vec<FunctionBinding>,
    functions: &Vec<SafeFunction>,
) -> (r: String)
    requires
        members_within(members@, bindings.len() as nat),
        functions.len() == bindings.len(),
    ensures
        r@ == methods_text(members@, views(bindings@), views(functions@)),
{
    let ghost bs = views(bindings@);
    let ghost fs = views(functions@);
    let mut r = String::new();
    let mut i: usize = 0;
    assert(members@.take(0) =~= Seq::<Member>::empty());
    while i < members.len()
        invariant
            i <= members.len(),
            bs == views(bindings@),
            fs == views(functions@),
            members_within(members@, bindings.len() as nat),
            functions.len() == bindings.len(),
            r@ == methods_text(members@.take(i as int), bs, fs),
        decreases members.len() - i,
    {
        let m = members[i];
        proof {
            assert(members@.take(i + 1).drop_last() =~= members@.take(i as int));
            assert(members@.take(i + 1).last() == m);
            assert(members@[i as int].func < bindings.len());
            assert(bs[m.func as int] == bindings@[m.func as int]@);
            assert(fs[m.func as int] == functions@[m.func as int]@);
        }
        let piece = render_method(m.slot, &bindings[m.func], &functions[m.func]);
        r.append(piece.as_str());
        i = i + 1;
    }
    assert(members@.take(members.len() as int) =~= members@);
    r
}

/// A module: its type, its constructor, which resolves the symbol of every
/// member and fails with the name of the first symbol that is missing, and
/// its methods.
pub open spec fn module_text(
    m: ModuleView,
    bindings: Seq<FunctionBindingView>,
    functions: Seq<SafeFunctionView>,
) -> Seq<char> {
    "\n/// A module contains functions.\npub struct "@ + m.name
        + "(std::marker::PhantomData<*mut u8>);\n\nimpl "@ + m.name
        + " {\n    /// Load a module.\n    pub fn new() -> Result<Self, Error> {\n        unsafe {\n            let dll = check_thread().ok_or(Error::NotInstalled)?;\n"@
        + loads_text(m.members, bindings)
        + "            Ok(Self(std::marker::PhantomData))\n        }\n    }\n"@ + methods_text(
        m.members,
        bindings,
        functions,
    ) + "}\n"@
}

/// A module: its type, its constructor and its methods.
pub fn render_module(m: &Module, bindings: &Vec<FunctionBinding>, functions: &Vec<SafeFunction>) -> (r:
    String)
    requires
        members_within(m@.members, bindings.len() as nat),
        functions.len() == bindings.len(),
    ensures
        r@ == module_text(m@, views(bindings@), views(functions@)),
{
    let loads = render_loads(&m.members, bindings);
    let methods = render_methods(&m.members, bindings, functions);
    let mut r = String::from_str("\n/// A module contains functions.\npub struct ");
    r.append(m.name.as_str());
    r.append("(std::marker::PhantomData<*mut u8>);\n\nimpl ");
    r.append(m.name.as_str());
    r.append(
        " {\n    /// Load a module.\n    pub fn new() -> Result<Self, Error> {\n        unsafe {\n            let dll = check_thread().ok_or(Error::NotInstalled)?;\n",
    );
    r.append(loads.as_str());
    r.append("            Ok(Self(std::marker::PhantomData))\n        }\n    }\n");
    r.append(methods.as_str());
    r.append("}\n");
    r
}

/// The modules, in their order.
pub open spec fn modules_text(
    mods: Seq<ModuleView>,
    bindings: Seq<FunctionBindingView>,
    functions: Seq<SafeFunctionView>,
) -> Seq<char>
    decreases mods.len(),
{
    if mods.len() == 0 {
        Seq::empty()
    } else {
        modules_text(mods.drop_last(), bindings, functions) + module_text(
            mods.last(),
            bindings,
            functions,
        )
    }
}

/// The modules, in their order.
pub fn render_modules(
    mods: &Vec<Module>,
    bindings: &Vec<FunctionBinding>,
    functions: &Vec<SafeFunction>,
) -> (r: String)
    requires
        modules_within(views(mods@), bindings.len() as nat),
        functions.len() == bindings.len(),
    ensures
        r@ == modules_text(views(mods@), views(bindings@), views(functions@)),
{
    let ghost all = views(mods@);
    let ghost bs = views(bindings@);
    let ghost fs = views(functions@);
    let mut r = String::new();
    let mut i: usize = 0;
    assert(all.take(0) =~= Seq::<ModuleView>::empty());
    while i < mods.len()
        invariant
            i <= mods.len(),
            all == views(mods@),
            bs == views(bindings@),
            fs == views(functions@),
            modules_within(all, bindings.len() as nat),
            functions.len() == bindings.len(),
            r@ == modules_text(all.take(i as int), bs, fs),
        decreases mods.len() - i,
    {
        proof {
            assert(all.take(i + 1).drop_last() =~= all.take(i as int));
            assert(all.take(i + 1).last() == mods@[i as int]@);
            assert(members_within(all[i as int].members, bindings.len() as nat));
        }
        let piece = render_module(&mods[i], bindings, functions);
        r.append(piece.as_str());
        i = i + 1;
    }
    assert(all.take(mods.len() as int) =~= all);
    r
}

/// The safe functions for the bindings, or the fault of the first binding
/// that has one.
pub open spec fn interpreted_all(bindings: Seq<FunctionBindingView>, addresses: Seq<Seq<char>>)
    -> Result<Seq<SafeFunctionView>, Fault>
    decreases bindings.len(),
{
    if bindings.len() == 0 {
        Ok(Seq::empty())
    } else {
        match interpreted_all(bindings.drop_last(), addresses) {
            Ok(init) => match interpretation(
                bindings.last().proto,
                addresses,
                bindings.last().pats,
            ) {
                Ok(f) => Ok(init.push(f)),
                Err(e) => Err(e),
            },
            Err(e) => Err(e),
        }
    }
}

/// A fault among the first bindings is the fault of them all.
proof fn lemma_interpreted_fault(
    bindings: Seq<FunctionBindingView>,
    addresses: Seq<Seq<char>>,
    k: int,
)
    requires
        0 <= k <= bindings.len(),
        interpreted_all(bindings.take(k), addresses) is Err,
    ensures
        interpreted_all(bindings, addresses) == interpreted_all(bindings.take(k), addresses),
    decreases bindings.len() - k,
{
    if k < bindings.len() {
        assert(bindings.take(k + 1).drop_last() =~= bindings.take(k));
        lemma_interpreted_fault(bindings, addresses, k + 1);
    } else {
        assert(bindings.take(k) =~= bindings);
    }
}

/// Works out the safe function of every binding.
pub fn interpret_all(bindings: &Vec<FunctionBinding>, addresses: &Vec<Address>) -> (r: Result<
    Vec<SafeFunction>,
    Fault,
>)
    ensures
        match interpreted_all(views(bindings@), names(views(addresses@))) {
            Ok(v) => r is Ok && views(r->Ok_0@) == v && r->Ok_0.len() == bindings.len(),
            Err(e) => r is Err && r->Err_0 == e,
        },
{
    let ghost all = views(bindings@);
    let ghost addrs = names(views(addresses@));
    let mut out: Vec<SafeFunction> = Vec::new();
    let mut i: usize = 0;
    assert(all.take(0) =~= Seq::<FunctionBindingView>::empty());
    assert(views(out@) =~= Seq::<SafeFunctionView>::empty());
    while i < bindings.len()
        invariant
            i <= bindings.len(),
            all == views(bindings@),
            addrs == names(views(addresses@)),
            out.len() == i,
            interpreted_all(all.take(i as int), addrs) == Ok::<Seq<SafeFunctionView>, Fault>(
                views(out@),
            ),
        decreases bindings.len() - i,
    {
        proof {
            assert(all.take(i + 1).drop_last() =~= all.take(i as int));
            assert(all.take(i + 1).last() == bindings@[i as int]@);
        }
        let ghost before = views(out@);
        match interpret(&bindings[i].proto, &bindings[i].pats, addresses) {
            Ok(f) => {
                out.push(f);
                assert(views(out@) =~= before.push(f@));
            },
            Err(e) => {
                proof {
                    lemma_interpreted_fault(all, addrs, i + 1);
                }
                return Err(e);
            },
        }
        i = i + 1;
    }
    assert(all.take(bindings.len() as int) =~= all);
    Ok(out)
}

/// The text that is generated for the description `spec` of the library
/// file called `so_name`: the constant that names the file, the enums, the
/// wrappers of the opaque types, a slot for every membership of a function
/// in a module, and the modules in the order of their names. A fault in a
/// prototype or in the text of an instruction comes before any fault of
/// interpretation, and among faults of one kind that of the earlier
/// function comes first.
pub open spec fn generated(spec: SafeFFIView, so_name: Seq<char>) -> Result<Seq<char>, Fault> {
    let addresses = names(spec.addresses);
    match bound_all(spec.funcs) {
        Ok(bindings) => match interpreted_all(bindings, addresses) {
            Ok(functions) => Ok(
                constant_text(so_name) + enums_text(spec.enums) + addresses_text(spec.addresses)
                    + statics_text(slot_funcs(placements(bindings)), bindings, addresses)
                    + modules_text(assembled(placements(bindings)), bindings, functions),
            ),
            Err(e) => Err(e),
        },
        Err(e) => Err(e),
    }
}

/// Whether `r` is the outcome of generation for the description `spec` with
/// the text `out` to add to: the fault that generation has, or `out` with
/// the generated text behind it.
pub open spec fn converted(
    spec: SafeFFIView,
    out: Seq<char>,
    so_name: Seq<char>,
    r: Result<String, Fault>,
) -> bool {
    match generated(spec, so_name) {
        Ok(text) => r is Ok && r->Ok_0@ == out + text,
        Err(e) => r is Err && r->Err_0 == e,
    }
}

/// Two outcomes of generation from the same description, the same text to
/// add to and the same file name are the same: both the same fault, or both
/// the same text, character by character.
pub proof fn lemma_generation_repeats(
    spec: SafeFFIView,
    out: Seq<char>,
    so_name: Seq<char>,
    first: Result<String, Fault>,
    second: Result<String, Fault>,
)
    requires
        converted(spec, out, so_name, first),
        converted(spec, out, so_name, second),
    ensures
        first is Ok <==> second is Ok,
        first is Ok ==> first->Ok_0@ == second->Ok_0@,
        first is Err ==> first->Err_0 == second->Err_0,
{
}

/// Generates the bindings for `spec` and adds them to `out`.
pub fn convert(spec: &SafeFFI, out: String, so_name: &str) -> (r: Result<String, Fault>)
    ensures
        converted(spec@, out@, so_name@, r),
{
    let bindings = match bind_all(&spec.funcs) {
        Ok(b) => b,
        Err(e) => {
            return Err(e);
        },
    };
    let functions = match interpret_all(&bindings, &spec.addresses) {
        Ok(f) => f,
        Err(e) => {
            return Err(e);
        },
    };
    let assembly = assemble(&bindings);
    let enums = render_enums(&spec.enums);
    let addresses = render_addresses(&spec.addresses);
    let statics = render_statics(&assembly.slots, &bindings, &spec.addresses);
    let modules = render_modules(&assembly.modules, &bindings, &functions);
    let mut text = render_constant(so_name);
    text.append(enums.as_str());
    text.append(addresses.as_str());
    text.append(statics.as_str());
    text.append(modules.as_str());
    let mut out = out;
    out.append(text.as_str());
    Ok(out)
}

} // verus!
