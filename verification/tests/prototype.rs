use dl_api::prototype::find_index;
use dl_api::prototype::get_formal_type;
use dl_api::prototype::get_index;
use dl_api::prototype::Prototype;
use dl_api::Fault;

fn pair(ty: &str, name: &str) -> (String, String) {
    (ty.to_string(), name.to_string())
}

fn proto(ret: &str, name: &str, pars: &[(&str, &str)]) -> Prototype {
    Prototype {
        ret: ret.to_string(),
        name: name.to_string(),
        pars: pars.iter().map(|p| pair(p.0, p.1)).collect(),
    }
}

#[test]
fn parses_a_single_parameter() {
    let p = Prototype::from_str("int32_t foo_new(uint32_t* out)").unwrap();
    assert_eq!(p, proto("int32_t", "foo_new", &[("uint32_t*", "out")]));
}

#[test]
fn parses_two_parameters() {
    let p = Prototype::from_str("int32_t foo_open(const char* path, void** handle)").unwrap();
    assert_eq!(p, proto("int32_t", "foo_open", &[("const char*", "path"), ("void**", "handle")]));
}

#[test]
fn rejoins_qualifiers_with_single_spaces() {
    let p = Prototype::from_str("unsigned   long\tint  f(const  char *  s,int n)").unwrap();
    assert_eq!(p, proto("unsigned long int", "f", &[("const char *", "s"), ("int", "n")]));
}

#[test]
fn takes_a_star_before_the_name_as_part_of_the_name() {
    let p = Prototype::from_str("void f(int *n)").unwrap();
    assert_eq!(p, proto("void", "f", &[("int", "*n")]));
}

#[test]
fn accepts_an_empty_parameter_list() {
    assert_eq!(Prototype::from_str("void f()").unwrap(), proto("void", "f", &[]));
    assert_eq!(Prototype::from_str("void f( \t )").unwrap(), proto("void", "f", &[]));
}

#[test]
fn rejects_text_that_does_not_close() {
    assert_eq!(Prototype::from_str("int f(int a"), Err(Fault::MalformedPrototype));
    assert_eq!(Prototype::from_str("int f(int a) "), Err(Fault::MalformedPrototype));
    assert_eq!(Prototype::from_str(""), Err(Fault::MalformedPrototype));
}

#[test]
fn rejects_text_without_an_opening_parenthesis() {
    assert_eq!(Prototype::from_str("int f)"), Err(Fault::MalformedPrototype));
    assert_eq!(Prototype::from_str(")"), Err(Fault::MalformedPrototype));
}

#[test]
fn rejects_a_second_parameter_list() {
    assert_eq!(Prototype::from_str("int f(int a)(int b)"), Err(Fault::MalformedPrototype));
    assert_eq!(Prototype::from_str("int f(int a))"), Err(Fault::MalformedPrototype));
}

#[test]
fn rejects_a_head_without_type_or_name() {
    assert_eq!(Prototype::from_str("f(int a)"), Err(Fault::MalformedPrototype));
    assert_eq!(Prototype::from_str("(int a)"), Err(Fault::MalformedPrototype));
}

#[test]
fn rejects_a_parameter_without_type_or_name() {
    assert_eq!(Prototype::from_str("int f(int)"), Err(Fault::MalformedPrototype));
    assert_eq!(Prototype::from_str("int f(void)"), Err(Fault::MalformedPrototype));
    assert_eq!(Prototype::from_str("int f(int a,)"), Err(Fault::MalformedPrototype));
    assert_eq!(Prototype::from_str("int f(,)"), Err(Fault::MalformedPrototype));
    assert_eq!(Prototype::from_str("int f(int a,,int b)"), Err(Fault::MalformedPrototype));
}

#[test]
fn does_not_support_function_pointers() {
    assert_eq!(
        Prototype::from_str("void on(void (*cb)(int), int x)"),
        Err(Fault::UnsupportedConstruct)
    );
    assert_eq!(Prototype::from_str("void on((int a)"), Err(Fault::UnsupportedConstruct));
}

#[test]
fn does_not_support_arrays() {
    assert_eq!(Prototype::from_str("void fill(int a[4])"), Err(Fault::UnsupportedConstruct));
    assert_eq!(Prototype::from_str("void fill(int a[])"), Err(Fault::UnsupportedConstruct));
    assert_eq!(Prototype::from_str("void fill(int ]a)"), Err(Fault::UnsupportedConstruct));
    assert_eq!(Prototype::from_str("int[4] f(int a)"), Err(Fault::UnsupportedConstruct));
    assert_eq!(Prototype::from_str("int f[4](int a)"), Err(Fault::UnsupportedConstruct));
    assert_eq!(Prototype::from_str("int ]f()"), Err(Fault::UnsupportedConstruct));
    assert_eq!(Prototype::from_str("f[](int a)"), Err(Fault::UnsupportedConstruct));
}

#[test]
fn writes_the_canonical_form() {
    assert_eq!(proto("void", "f", &[]).canonical(), "void f()");
    assert_eq!(proto("int", "g", &[("const char*", "s")]).canonical(), "int g(const char* s)");
    assert_eq!(
        proto("unsigned long", "h", &[("int", "a"), ("void**", "b"), ("float", "c")]).canonical(),
        "unsigned long h(int a, void** b, float c)"
    );
}

#[test]
fn canonical_form_parses_to_the_same_prototype() {
    for text in [
        "int32_t foo_new(uint32_t* out)",
        "unsigned   long\tint  f(const  char *  s,int n)",
        "void f( )",
        "  const\nchar*\rname\u{0C}(  widget_t*   w ,unsigned long long int x)",
        "int fo)o(int a)",
    ] {
        let first = Prototype::from_str(text).unwrap();
        let again = Prototype::from_str(&first.canonical()).unwrap();
        assert_eq!(first, again);
        assert_eq!(first.canonical(), again.canonical());
    }
}

#[test]
fn finds_the_first_parameter_of_a_name() {
    let pars = vec![pair("int", "a"), pair("char*", "b"), pair("long", "a")];
    assert_eq!(find_index(&pars, "a"), Some(0));
    assert_eq!(find_index(&pars, "b"), Some(1));
    assert_eq!(find_index(&pars, "c"), None);
    assert_eq!(find_index(&vec![], "a"), None);
    assert_eq!(get_index(&pars, "b"), 1);
    assert_eq!(get_index(&pars, "a"), 0);
    assert_eq!(get_formal_type(&pars, "a"), "int");
    assert_eq!(get_formal_type(&pars, "b"), "char*");
}
