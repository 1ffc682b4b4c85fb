use dl_api::Error;
use dl_api::Fault;

#[test]
fn says_that_the_library_is_missing() {
    assert_eq!(Error::NotInstalled.message(), "Not Installed");
}

#[test]
fn says_which_symbol_is_missing() {
    assert_eq!(Error::DoesntExist("glClear").message(), "Symbol \"glClear\" doesn't exist");
    assert_eq!(Error::DoesntExist("").message(), "Symbol \"\" doesn't exist");
}

#[test]
fn names_every_fault() {
    assert_eq!(Fault::MalformedPrototype.message(), "Malformed prototype");
    assert_eq!(Fault::UnknownModifier.message(), "Unknown modifier");
    assert_eq!(Fault::DuplicateErrorCheck.message(), "Can't use OK for results twice");
    assert_eq!(Fault::UnboundParameter.message(), "Unbound parameter");
    assert_eq!(Fault::UnsupportedConstruct.message(), "Unsupported construct");
}
