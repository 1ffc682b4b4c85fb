use dl_api::assemble::Member;
use dl_api::assemble::Module;
use dl_api::binding::FunctionBinding;
use dl_api::emit::convert;
use dl_api::emit::render_address;
use dl_api::emit::render_constant;
use dl_api::emit::render_doc;
use dl_api::emit::render_enum;
use dl_api::emit::render_load;
use dl_api::emit::render_method;
use dl_api::emit::render_module;
use dl_api::emit::render_return_type;
use dl_api::emit::render_return_value;
use dl_api::emit::render_slot_name;
use dl_api::emit::render_static;
use dl_api::interpreter::interpret;
use dl_api::model::Address;
use dl_api::model::Enum;
use dl_api::model::EnumVariant;
use dl_api::model::Func;
use dl_api::model::SafeFFI;
use dl_api::prototype::Prototype;
use dl_api::Fault;

fn t(text: &str) -> String {
    text.to_string()
}

fn widget() -> Vec<Address> {
    vec![Address { name: t("widget_t"), doc: Some(t("A widget.")), record: None, bytes: None, old: None }]
}

fn func(def: &str, modules: &[&str], pat: &[&str]) -> Func {
    Func {
        def: t(def),
        modules: modules.iter().map(|m| t(m)).collect(),
        doc: None,
        pat: pat.iter().map(|p| t(p)).collect(),
    }
}

#[test]
fn names_the_library_file() {
    assert_eq!(
        render_constant("widgets.so.2"),
        "const DL_API_SHARED_OBJECT_NAME: &[u8] = b\"libwidgets.so.2\\0\";\n\n"
    );
}

#[test]
fn documentation_continues_on_every_line() {
    assert_eq!(render_doc(&None, "    "), "");
    assert_eq!(render_doc(&Some(t("One line.")), ""), "/// One line.\n");
    assert_eq!(
        render_doc(&Some(t("First.\nSecond.\n")), "    "),
        "    /// First.\n    /// Second.\n    /// \n"
    );
}

#[test]
fn prints_an_enum() {
    let en = Enum {
        name: t("color_mode_t"),
        doc: Some(t("How colors are stored.\nSecond line.")),
        ty: Some(t("u8")),
        variant: vec![
            EnumVariant { name: t("RGB_MODE"), doc: Some(t("Red\ngreen, blue")), value: Some(1) },
            EnumVariant { name: t("gray"), doc: None, value: Some(-12) },
            EnumVariant { name: t("other"), doc: None, value: None },
        ],
    };
    let expected = "/// How colors are stored.\n\
/// Second line.\n\
#[repr(u8)]\n\
#[repr(C)]\n\
#[non_exhaustive]\n\
#[derive(Copy, Clone, Debug, PartialEq)]\n\
pub enum ColorMode {\n\
\x20   /// Red\n\
\x20   /// green, blue\n\
\x20   RgbMode = 1,\n\
\x20   Gray = -12,\n\
\x20   Other,\n\
}\n\n";
    assert_eq!(render_enum(&en), expected);
}

#[test]
fn prints_an_enum_without_type_or_variants() {
    let en = Enum { name: t("empty"), doc: None, ty: None, variant: vec![] };
    assert_eq!(
        render_enum(&en),
        "#[repr(C)]\n#[non_exhaustive]\n#[derive(Copy, Clone, Debug, PartialEq)]\npub enum Empty {\n}\n\n"
    );
}

#[test]
fn prints_the_wrapper_of_an_opaque_type() {
    assert_eq!(
        render_address(&widget()[0]),
        "/// A widget.\npub struct Widget(*mut std::os::raw::c_void);\n\n"
    );
    let pen = Address { name: t("pen"), doc: None, record: Some(t("PenData")), bytes: None, old: None };
    assert_eq!(render_address(&pen), "pub struct Pen(*mut PenData);\n\n");
}

#[test]
fn names_slots_by_number_and_function() {
    assert_eq!(render_slot_name(0, "foo_new"), "FN_0_FOO_NEW");
    assert_eq!(render_slot_name(27, "glGetError2"), "FN_27_GLGETERROR2");
}

#[test]
fn declares_a_slot_with_the_raw_signature() {
    let proto =
        Prototype::from_str("const char* widget_name(widget_t* w, const uint8_t** data, int n)")
            .unwrap();
    let expected = "static mut FN_3_WIDGET_NAME:\n\
\x20   std::mem::MaybeUninit<extern fn(\n\
\x20       w: *mut std::os::raw::c_void,\n\
\x20       data: *const *const u8,\n\
\x20       n: std::os::raw::c_int,\n\
\x20   ) -> *const std::os::raw::c_char> = std::mem::MaybeUninit::uninit();\n";
    assert_eq!(render_static(3, &proto, &widget()), expected);
}

#[test]
fn resolves_a_symbol_or_fails_with_its_name() {
    assert_eq!(
        render_load(4, "widget_open"),
        "            FN_4_WIDGET_OPEN = std::mem::MaybeUninit::new(std::mem::transmute(sym(&dll, b\"widget_open\\0\").ok_or(Error::DoesntExist(\"widget_open\"))?.as_ptr()));\n"
    );
}

#[test]
fn prints_a_checked_method() {
    let f = Func {
        def: t("int32_t widget_open(const char* path, widget_t** w)"),
        modules: vec![t("Widgets")],
        doc: Some(t("Opens a widget.")),
        pat: vec![t("STR path"), t("NEW w"), t("OK = 0")],
    };
    let b = FunctionBinding::new(&f).unwrap();
    let safe = interpret(&b.proto, &b.pats, &widget()).unwrap();
    assert_eq!(render_return_type(&safe), "Result<Widget, i32>");
    assert_eq!(render_return_value(&safe), "Ok(Widget(w) as _)");
    let expected = "    /// Opens a widget.\n\
\x20   pub fn widget_open(&self,\n\
\x20       path: &std::ffi::CStr,\n\
\x20   ) -> Result<Widget, i32>\n\
\x20   {\n\
\x20       unsafe {\n\
\x20           let mut w = std::mem::MaybeUninit::uninit();\n\
\x20           let __ret = ((FN_0_WIDGET_OPEN).assume_init())(\n\
\x20               path.as_ptr(),\n\
\x20               w.as_mut_ptr(),\n\
\x20           );\n\
\x20           let w = w.assume_init();\n\
\x20           if __ret != 0 { return Err(__ret as _) };\n\
\x20           Ok(Widget(w) as _)\n\
\x20       }\n\
\x20   }\n";
    assert_eq!(render_method(0, &b, &safe), expected);
}

#[test]
fn prints_buffers_and_exchanged_scalars() {
    let f = func(
        "long widget_read(widget_t* w, uint8_t* buf, size_t cap, int* flags, unsigned int* mode)",
        &["Io"],
        &["VAL w", "OUT_VEC cap buf", "MUT flags", "OPT_MUT mode", "OUT", "OUT flags"],
    );
    let b = FunctionBinding::new(&f).unwrap();
    let safe = interpret(&b.proto, &b.pats, &widget()).unwrap();
    let expected = "    pub fn widget_read(&self,\n\
\x20       w: &Widget,\n\
\x20       buf: &mut Vec<u8>,\n\
\x20       flags: &mut i32,\n\
\x20       mode: Option<&mut u32>,\n\
\x20   ) -> (isize,i32,)\n\
\x20   {\n\
\x20       unsafe {\n\
\x20           let mut __flags: _ = *flags as _;\n\
\x20           let mut __mode: _ = if let Some(_temp) = mode.iter().next() { Some(**_temp as _) } else { None };\n\
\x20           let __ret = ((FN_12_WIDGET_READ).assume_init())(\n\
\x20               w.0,\n\
\x20               buf.as_mut_ptr(),\n\
\x20               buf.capacity() as _,\n\
\x20               &mut __flags,\n\
\x20               if let Some(ref mut _temp) = __mode { _temp } else { std::ptr::null_mut() },\n\
\x20           );\n\
\x20           buf.set_len(__ret as _);\n\
\x20           *flags = __flags as _;\n\
\x20           if let Some(_temp) = mode { *_temp = __mode.unwrap() as _; }\n\
\x20           (__ret as _,flags as _,)\n\
\x20       }\n\
\x20   }\n";
    assert_eq!(render_method(12, &b, &safe), expected);
}

#[test]
fn prints_slices_and_raw_handles() {
    let f = func(
        "void widget_write(void* raw, const uint16_t* data, uint32_t n, color_mode_t mode)",
        &["Io"],
        &["RAW raw", "SLICE n data", "VAL mode"],
    );
    let b = FunctionBinding::new(&f).unwrap();
    let safe = interpret(&b.proto, &b.pats, &widget()).unwrap();
    let expected = "    pub fn widget_write(&self,\n\
\x20       raw: *mut std::os::raw::c_void,\n\
\x20       data: &[u16],\n\
\x20       mode: &ColorMode,\n\
\x20   ) -> ()\n\
\x20   {\n\
\x20       unsafe {\n\
\x20           let __ret = ((FN_1_WIDGET_WRITE).assume_init())(\n\
\x20               raw,\n\
\x20               data.as_ptr(),\n\
\x20               data.len() as _,\n\
\x20               mode.0,\n\
\x20           );\n\
\x20           ()\n\
\x20       }\n\
\x20   }\n";
    assert_eq!(render_method(1, &b, &safe), expected);
}

#[test]
fn prints_a_released_handle() {
    let f = func("void widget_close(widget_t* w)", &["Widgets"], &["OLD w"]);
    let b = FunctionBinding::new(&f).unwrap();
    let safe = interpret(&b.proto, &b.pats, &widget()).unwrap();
    let expected = "    pub fn widget_close(&self,\n\
\x20       w: &mut Widget,\n\
\x20   ) -> ()\n\
\x20   {\n\
\x20       unsafe {\n\
\x20           if w.0.is_null() { panic!(\"Object free'd twice!\") }\n\
\x20           let __ret = ((FN_1_WIDGET_CLOSE).assume_init())(\n\
\x20               w.0,\n\
\x20           );\n\
\x20           w.0 = std::ptr::null_mut();\n\
\x20           ()\n\
\x20       }\n\
\x20   }\n";
    assert_eq!(render_method(1, &b, &safe), expected);
}

#[test]
fn prints_a_module_with_its_constructor() {
    let f = func("void widget_close(widget_t* w)", &["Widgets"], &["OLD w"]);
    let bindings = vec![FunctionBinding::new(&f).unwrap()];
    let functions = vec![interpret(&bindings[0].proto, &bindings[0].pats, &widget()).unwrap()];
    let module = Module { name: t("Widgets"), members: vec![Member { slot: 0, func: 0 }] };
    let expected = t("\n/// A module contains functions.\n\
pub struct Widgets(std::marker::PhantomData<*mut u8>);\n\
\n\
impl Widgets {\n\
\x20   /// Load a module.\n\
\x20   pub fn new() -> Result<Self, Error> {\n\
\x20       unsafe {\n\
\x20           let dll = check_thread().ok_or(Error::NotInstalled)?;\n")
        + &render_load(0, "widget_close")
        + "            Ok(Self(std::marker::PhantomData))\n\
\x20       }\n\
\x20   }\n"
        + &render_method(0, &bindings[0], &functions[0])
        + "}\n";
    assert_eq!(render_module(&module, &bindings, &functions), expected);
}

#[test]
fn prints_the_parts_in_order() {
    let spec = SafeFFI {
        unions: vec![],
        enums: vec![Enum { name: t("empty"), doc: None, ty: None, variant: vec![] }],
        addresses: widget(),
        structs: vec![],
        funcs: vec![
            func("void widget_close(widget_t* w)", &["Widgets", "All"], &["OLD w"]),
            func("int widget_count()", &["All"], &["OUT"]),
        ],
    };
    let text = convert(&spec, t("// header\n"), "widgets.so.2").unwrap();
    let marks = [
        "// header\nconst DL_API_SHARED_OBJECT_NAME",
        "pub enum Empty {",
        "pub struct Widget(*mut std::os::raw::c_void);",
        "static mut FN_0_WIDGET_CLOSE:",
        "static mut FN_1_WIDGET_CLOSE:",
        "static mut FN_2_WIDGET_COUNT:",
        "pub struct All(",
        "FN_1_WIDGET_CLOSE = ",
        "FN_2_WIDGET_COUNT = ",
        "pub fn widget_close(",
        "pub fn widget_count(",
        "pub struct Widgets(",
        "FN_0_WIDGET_CLOSE = ",
        "pub fn widget_close(",
    ];
    let mut at = 0;
    for mark in marks {
        let found = text[at..].find(mark);
        assert!(found.is_some(), "missing after {}: {}", at, mark);
        at += found.unwrap() + mark.len();
    }
    assert!(text.ends_with("    }\n}\n"));
}

#[test]
fn generates_the_same_text_again() {
    let spec = SafeFFI {
        unions: vec![],
        enums: vec![],
        addresses: widget(),
        structs: vec![],
        funcs: vec![func("void widget_close(widget_t* w)", &["B", "A"], &["OLD w"])],
    };
    let first = convert(&spec, t("x"), "w.so");
    let second = convert(&spec, t("x"), "w.so");
    assert!(first.is_ok());
    assert_eq!(first, second);
}

#[test]
fn a_fault_ends_generation() {
    let spec = |def: &str, pat: &[&str]| SafeFFI {
        unions: vec![],
        enums: vec![],
        addresses: widget(),
        structs: vec![],
        funcs: vec![func("int ok(int a)", &["M"], &["VAL a"]), func(def, &[], pat)],
    };
    assert_eq!(convert(&spec("int f(int a", &[]), t(""), "x"), Err(Fault::MalformedPrototype));
    assert_eq!(
        convert(&spec("int f(int a)", &["BOX a"]), t(""), "x"),
        Err(Fault::UnknownModifier)
    );
    assert_eq!(
        convert(&spec("int f(int a)", &["VAL a", "OK = 0", "OK < 1"]), t(""), "x"),
        Err(Fault::DuplicateErrorCheck)
    );
    assert_eq!(convert(&spec("int f(int a)", &[]), t(""), "x"), Err(Fault::UnboundParameter));
    assert_eq!(
        convert(&spec("int f(widget_t* a)", &["MUT a"]), t(""), "x"),
        Err(Fault::UnsupportedConstruct)
    );
}
