use dl_api::model::Address;
use dl_api::types::address_exists;
use dl_api::types::c_binding_into_rust;
use dl_api::types::c_type_as_binding;
use dl_api::types::raw;
use dl_api::types::safe;
use dl_api::types::shape;
use dl_api::types::struct_name;
use dl_api::types::trim;

fn addresses() -> Vec<Address> {
    ["widget_t", "FILE"]
        .iter()
        .map(|n| Address { name: n.to_string(), doc: None, record: None, bytes: None, old: None })
        .collect()
}

#[test]
fn maps_fixed_width_names() {
    let none = vec![];
    for (c, token) in [
        ("uint8_t", "u8"),
        ("int8_t", "i8"),
        ("uint16_t", "u16"),
        ("int16_t", "i16"),
        ("uint32_t", "u32"),
        ("int32_t", "i32"),
        ("uint64_t", "u64"),
        ("int64_t", "i64"),
        ("bool", "bool"),
        ("void", "()"),
    ] {
        assert_eq!(c_type_as_binding(c, &none), token);
    }
}

#[test]
fn maps_standard_scalar_names() {
    let none = vec![];
    for (c, token) in [
        ("char", "std::os::raw::c_char"),
        ("unsigned char", "std::os::raw::c_uchar"),
        ("signed char", "std::os::raw::c_schar"),
        ("unsigned short", "std::os::raw::c_ushort"),
        ("unsigned short int", "std::os::raw::c_ushort"),
        ("short", "std::os::raw::c_short"),
        ("signed short", "std::os::raw::c_short"),
        ("short int", "std::os::raw::c_short"),
        ("signed short int", "std::os::raw::c_short"),
        ("unsigned int", "std::os::raw::c_uint"),
        ("unsigned", "std::os::raw::c_uint"),
        ("int", "std::os::raw::c_int"),
        ("signed int", "std::os::raw::c_int"),
        ("signed", "std::os::raw::c_int"),
        ("unsigned long long int", "std::os::raw::c_ulonglong"),
        ("unsigned long long", "std::os::raw::c_ulonglong"),
        ("long long int", "std::os::raw::c_longlong"),
        ("long long", "std::os::raw::c_longlong"),
        ("signed long long int", "std::os::raw::c_longlong"),
        ("signed long long", "std::os::raw::c_longlong"),
        ("unsigned long int", "std::os::raw::c_ulong"),
        ("unsigned long", "std::os::raw::c_ulong"),
        ("long int", "std::os::raw::c_long"),
        ("long", "std::os::raw::c_long"),
        ("double", "std::os::raw::c_double"),
        ("float", "std::os::raw::c_float"),
    ] {
        assert_eq!(c_type_as_binding(c, &none), token);
    }
}

#[test]
fn ignores_whitespace_around_a_name() {
    assert_eq!(c_type_as_binding(" \tint\r\n", &vec![]), "std::os::raw::c_int");
    assert_eq!(c_type_as_binding("widget_t ", &addresses()), "std::os::raw::c_void");
}

#[test]
fn maps_opaque_types_to_the_untyped_pointee() {
    assert_eq!(c_type_as_binding("widget_t", &addresses()), "std::os::raw::c_void");
    assert_eq!(c_type_as_binding("FILE", &addresses()), "std::os::raw::c_void");
}

#[test]
fn maps_other_names_to_struct_names() {
    assert_eq!(c_type_as_binding("widget_t", &vec![]), "Widget");
    assert_eq!(c_type_as_binding("my_point", &addresses()), "MyPoint");
    assert_eq!(c_type_as_binding("XMLHttpRequest_t", &addresses()), "XmlHttpRequest");
    assert_eq!(c_type_as_binding("", &vec![]), "");
}

#[test]
fn puts_names_in_camel_case() {
    assert_eq!(struct_name("foo_bar"), "FooBar");
    assert_eq!(struct_name("foo_bar_t"), "FooBar");
    assert_eq!(struct_name("_t"), "");
    assert_eq!(struct_name("t"), "T");
    assert_eq!(struct_name("SHOUTY_SNAKE_CASE"), "ShoutySnakeCase");
}

#[test]
fn knows_the_opaque_types_by_name() {
    assert!(address_exists(&addresses(), "widget_t"));
    assert!(address_exists(&addresses(), "FILE"));
    assert!(!address_exists(&addresses(), "widget"));
    assert!(!address_exists(&addresses(), "file"));
    assert!(!address_exists(&vec![], "widget_t"));
}

#[test]
fn maps_tokens_to_surface_types() {
    for (token, surface) in [
        ("std::os::raw::c_char", "char"),
        ("std::os::raw::c_uchar", "u8"),
        ("std::os::raw::c_schar", "i8"),
        ("std::os::raw::c_ushort", "u16"),
        ("std::os::raw::c_short", "i16"),
        ("std::os::raw::c_uint", "u32"),
        ("std::os::raw::c_int", "i32"),
        ("std::os::raw::c_ulonglong", "u64"),
        ("std::os::raw::c_longlong", "i64"),
        ("std::os::raw::c_ulong", "usize"),
        ("std::os::raw::c_long", "isize"),
        ("std::os::raw::c_double", "f64"),
        ("std::os::raw::c_float", "f32"),
        ("()", "()"),
        ("bool", "bool"),
        ("u8", "u8"),
        ("i8", "i8"),
        ("u16", "u16"),
        ("i16", "i16"),
        ("u32", "u32"),
        ("i32", "i32"),
        ("u64", "u64"),
        ("i64", "i64"),
    ] {
        assert_eq!(c_binding_into_rust(token), Some(surface.to_string()));
    }
}

#[test]
fn has_no_surface_type_for_the_untyped_pointee() {
    assert_eq!(c_binding_into_rust("std::os::raw::c_void"), None);
}

#[test]
fn has_no_surface_type_for_other_names() {
    for token in ["FooBar", "MyPoint", "", "char", "usize", "f64", "std::os::raw::c_size_t", "U8", " u8"] {
        assert_eq!(c_binding_into_rust(token), None, "{:?}", token);
    }
}

#[test]
fn splits_a_type_into_its_parts() {
    let s = shape("const char*");
    assert_eq!((s.constant, s.depth, s.base.as_str()), (true, 1, "char"));
    let s = shape("void**");
    assert_eq!((s.constant, s.depth, s.base.as_str()), (false, 2, "void"));
    let s = shape("unsigned long int");
    assert_eq!((s.constant, s.depth, s.base.as_str()), (false, 0, "unsigned long int"));
    let s = shape("const widget_t * *");
    assert_eq!((s.constant, s.depth, s.base.as_str()), (true, 1, "widget_t *"));
    let s = shape("constant");
    assert_eq!((s.constant, s.depth, s.base.as_str()), (false, 0, "constant"));
    let s = shape("***");
    assert_eq!((s.constant, s.depth, s.base.as_str()), (false, 3, ""));
    let s = shape("");
    assert_eq!((s.constant, s.depth, s.base.as_str()), (false, 0, ""));
}

#[test]
fn trims_ascii_whitespace_only() {
    let v: Vec<char> = " \t\n\u{0C}\r a b \r".chars().collect();
    assert_eq!(trim(&v).iter().collect::<String>(), "a b");
    let v: Vec<char> = "\u{A0}a\u{0B}".chars().collect();
    assert_eq!(trim(&v).iter().collect::<String>(), "\u{A0}a\u{0B}");
    let v: Vec<char> = "   ".chars().collect();
    assert_eq!(trim(&v).iter().collect::<String>(), "");
}

#[test]
fn wraps_the_token_in_pointer_annotations() {
    assert_eq!(raw("const char*", &vec![]), "*const std::os::raw::c_char");
    assert_eq!(raw("void**", &vec![]), "*mut *mut ()");
    assert_eq!(raw("widget_t*", &addresses()), "*mut std::os::raw::c_void");
    assert_eq!(raw("const uint8_t**", &vec![]), "*const *const u8");
    assert_eq!(raw("int", &vec![]), "std::os::raw::c_int");
}

#[test]
fn sees_values_as_scalars_or_handles() {
    let s = safe("const uint32_t*", &addresses());
    assert_eq!((s.name.as_str(), s.wrapped), ("u32", false));
    let s = safe("widget_t*", &addresses());
    assert_eq!((s.name.as_str(), s.wrapped), ("Widget", true));
    let s = safe("widget_t*", &vec![]);
    assert_eq!((s.name.as_str(), s.wrapped), ("Widget", true));
    let s = safe("const my_point", &addresses());
    assert_eq!((s.name.as_str(), s.wrapped), ("MyPoint", true));
    let s = safe("void", &addresses());
    assert_eq!((s.name.as_str(), s.wrapped), ("()", false));
    let s = safe("long", &vec![]);
    assert_eq!((s.name.as_str(), s.wrapped), ("isize", false));
}
