//! The description of a native library that bindings are generated from.

use crate::text::views;
use vstd::prelude::*;

verus! {

/// One alternative of a union.
#[derive(Debug, Clone, PartialEq, Eq)]
pub struct UnionVariant {
    pub ty: String,
}

/// A union, told apart by an enum. Nothing is generated for unions.
#[derive(Debug, Clone, PartialEq, Eq)]
pub struct Union {
    pub name: String,
    pub doc: Option<String>,
    pub tag: String,
    pub variant: Vec<UnionVariant>,
}

/// One variant of an enum, with its value where the description fixes it.
#[derive(Debug, Clone, PartialEq, Eq)]
pub struct EnumVariant {
    pub name: String,
    pub doc: Option<String>,
    pub value: Option<i32>,
}

/// A C enum, with the integer type that represents it where the description
/// names one.
#[derive(Debug, Clone, PartialEq, Eq)]
pub struct Enum {
    pub name: String,
    pub doc: Option<String>,
    pub ty: Option<String>,
    pub variant: Vec<EnumVariant>,
}

/// An opaque type: callers hold it only as a pointer that they cannot look
/// into. `record` names the struct behind the pointer where there is one.
#[derive(Debug, Clone, PartialEq, Eq)]
pub struct Address {
    pub name: String,
    pub doc: Option<String>,
    pub record: Option<String>,
    pub bytes: Option<String>,
    pub old: Option<String>,
}

/// A field of a struct.
#[derive(Debug, Clone, PartialEq, Eq)]
pub struct Param {
    pub name: String,
    pub attr: Vec<String>,
    pub ty: String,
}

/// A transparent struct. Nothing is generated for structs.
#[derive(Debug, Clone, PartialEq, Eq)]
pub struct Struct {
    pub name: String,
    pub doc: Option<String>,
    pub field: Vec<Param>,
}

/// A function: its prototype as text, the modules it belongs to, and its
/// pattern instructions as text, in order.
#[derive(Debug, Clone, PartialEq, Eq)]
pub struct Func {
    pub def: String,
    pub modules: Vec<String>,
    pub doc: Option<String>,
    pub pat: Vec<String>,
}

/// The whole description.
#[derive(Debug, Clone, PartialEq, Eq)]
pub struct SafeFFI {
    pub unions: Vec<Union>,
    pub enums: Vec<Enum>,
    pub addresses: Vec<Address>,
    pub structs: Vec<Struct>,
    pub funcs: Vec<Func>,
}

/// The view of an optional string.
pub open spec fn view_opt(o: Option<String>) -> Option<Seq<char>> {
    match o {
        Some(s) => Some(s@),
        None => None,
    }
}

pub struct EnumVariantView {
    pub name: Seq<char>,
    pub doc: Option<Seq<char>>,
    pub value: Option<i32>,
}

impl View for EnumVariant {
    type V = EnumVariantView;

    open spec fn view(&self) -> EnumVariantView {
        EnumVariantView { name: self.name@, doc: view_opt(self.doc), value: self.value }
    }
}

pub struct EnumView {
    pub name: Seq<char>,
    pub doc: Option<Seq<char>>,
    pub ty: Option<Seq<char>>,
    pub variant: Seq<EnumVariantView>,
}

impl View for Enum {
    type V = EnumView;

    open spec fn view(&self) -> EnumView {
        EnumView {
            name: self.name@,
            doc: view_opt(self.doc),
            ty: view_opt(self.ty),
            variant: views(self.variant@),
        }
    }
}

pub struct AddressView {
    pub name: Seq<char>,
    pub doc: Option<Seq<char>>,
    pub record: Option<Seq<char>>,
    pub bytes: Option<Seq<char>>,
    pub old: Option<Seq<char>>,
}

impl View for Address {
    type V = AddressView;

    open spec fn view(&self) -> AddressView {
        AddressView {
            name: self.name@,
            doc: view_opt(self.doc),
            record: view_opt(self.record),
            bytes: view_opt(self.bytes),
            old: view_opt(self.old),
        }
    }
}

pub struct FuncView {
    pub def: Seq<char>,
    pub modules: Seq<Seq<char>>,
    pub doc: Option<Seq<char>>,
    pub pat: Seq<Seq<char>>,
}

impl View for Func {
    type V = FuncView;

    open spec fn view(&self) -> FuncView {
        FuncView {
            def: self.def@,
            modules: views(self.modules@),
            doc: view_opt(self.doc),
            pat: views(self.pat@),
        }
    }
}

pub struct UnionVariantView {
    pub ty: Seq<char>,
}

impl View for UnionVariant {
    type V = UnionVariantView;

    open spec fn view(&self) -> UnionVariantView {
        UnionVariantView { ty: self.ty@ }
    }
}

pub struct UnionView {
    pub name: Seq<char>,
    pub doc: Option<Seq<char>>,
    pub tag: Seq<char>,
    pub variant: Seq<UnionVariantView>,
}

impl View for Union {
    type V = UnionView;

    open spec fn view(&self) -> UnionView {
        UnionView {
            name: self.name@,
            doc: view_opt(self.doc),
            tag: self.tag@,
            variant: views(self.variant@),
        }
    }
}

pub struct ParamView {
    pub name: Seq<char>,
    pub attr: Seq<Seq<char>>,
    pub ty: Seq<char>,
}

impl View for Param {
    type V = ParamView;

    open spec fn view(&self) -> ParamView {
        ParamView { name: self.name@, attr: views(self.attr@), ty: self.ty@ }
    }
}

pub struct StructView {
    pub name: Seq<char>,
    pub doc: Option<Seq<char>>,
    pub field: Seq<ParamView>,
}

impl View for Struct {
    type V = StructView;

    open spec fn view(&self) -> StructView {
        StructView { name: self.name@, doc: view_opt(self.doc), field: views(self.field@) }
    }
}

/// A description as sequences of characters. Generation reads its enums,
/// its opaque types and its functions.
pub struct SafeFFIView {
    pub unions: Seq<UnionView>,
    pub structs: Seq<StructView>,
    pub enums: Seq<EnumView>,
    pub addresses: Seq<AddressView>,
    pub funcs: Seq<FuncView>,
}

impl View for SafeFFI {
    type V = SafeFFIView;

    open spec fn view(&self) -> SafeFFIView {
        SafeFFIView {
            unions: views(self.unions@),
            structs: views(self.structs@),
            enums: views(self.enums@),
            addresses: views(self.addresses@),
            funcs: views(self.funcs@),
        }
    }
}

/// The names of the opaque types.
pub open spec fn names(addresses: Seq<AddressView>) -> Seq<Seq<char>> {
    addresses.map_values(|a: AddressView| a.name)
}

} // verus!
