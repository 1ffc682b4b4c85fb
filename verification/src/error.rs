//! What can go wrong: while loading a library at run time, and while
//! generating bindings.

use vstd::prelude::*;
use vstd::string::StringExecFns;

verus! {

/// Why a dynamically loaded interface could not be set up.
#[derive(Debug, Copy, Clone)]
pub enum Error {
    /// Library could not be found.
    NotInstalled,
    /// Function or global static doesn't exist in this library.
    DoesntExist(&'static str),
}

/// The message that `Error::message` gives for `e`.
pub open spec fn message_of(e: Error) -> Seq<char> {
    match e {
        Error::NotInstalled => "Not Installed"@,
        Error::DoesntExist(details) => "Symbol \""@ + details@ + "\" doesn't exist"@,
    }
}

impl Error {
    /// The error in words.
    pub fn message(&self) -> (r: String)
        ensures
            r@ == message_of(*self),
    {
        match self {
            Error::NotInstalled => String::from_str("Not Installed"),
            Error::DoesntExist(details) => {
                let mut r = String::from_str("Symbol \"");
                r.append(details);
                r.append("\" doesn't exist");
                r
            },
        }
    }
}

/// Why bindings could not be generated. Each fault ends generation: nothing
/// is emitted for a description that has one.
#[derive(Debug, Copy, Clone, PartialEq, Eq, Structural)]
pub enum Fault {
    /// A prototype is not of the form `TYPE NAME(TYPE NAME, ...)`.
    MalformedPrototype,
    /// A pattern instruction is not one of the known forms.
    UnknownModifier,
    /// A function carries more than one `OK` instruction.
    DuplicateErrorCheck,
    /// An instruction names a parameter that the prototype does not have, or
    /// a parameter of the prototype is targeted by no instruction.
    UnboundParameter,
    /// The description asks for what cannot be generated.
    UnsupportedConstruct,
}

/// The message that `Fault::message` gives for `f`.
pub open spec fn fault_message(f: Fault) -> Seq<char> {
    match f {
        Fault::MalformedPrototype => "Malformed prototype"@,
        Fault::UnknownModifier => "Unknown modifier"@,
        Fault::DuplicateErrorCheck => "Can't use OK for results twice"@,
        Fault::UnboundParameter => "Unbound parameter"@,
        Fault::UnsupportedConstruct => "Unsupported construct"@,
    }
}

impl Fault {
    /// The fault in words.
    pub fn message(&self) -> (r: &'static str)
        ensures
            r@ == fault_message(*self),
    {
        match self {
            Fault::MalformedPrototype => "Malformed prototype",
            Fault::UnknownModifier => "Unknown modifier",
            Fault::DuplicateErrorCheck => "Can't use OK for results twice",
            Fault::UnboundParameter => "Unbound parameter",
            Fault::UnsupportedConstruct => "Unsupported construct",
        }
    }
}

/// Whether the outcome `r` is the modelled outcome `m`: the same fault, or a
/// value whose view is the modelled value.
pub open spec fn agrees<T: View>(r: Result<T, Fault>, m: Result<T::V, Fault>) -> bool {
    match m {
        Ok(v) => r is Ok && r->Ok_0@ == v,
        Err(e) => r is Err && r->Err_0 == e,
    }
}

} // verus!
