use dl_api::assemble::assemble;
use dl_api::assemble::Member;
use dl_api::binding::FunctionBinding;
use dl_api::emit::convert;
use dl_api::interpreter::interpret;
use dl_api::interpreter::Arg;
use dl_api::interpreter::ArgKind;
use dl_api::interpreter::Finish;
use dl_api::interpreter::Output;
use dl_api::interpreter::OutputShape;
use dl_api::interpreter::ParamShape;
use dl_api::interpreter::PublicParam;
use dl_api::interpreter::Setup;
use dl_api::interpreter::SetupKind;
use dl_api::model::Address;
use dl_api::model::Func;
use dl_api::model::SafeFFI;
use dl_api::pattern::Comparator;
use dl_api::pattern::Instruction;
use dl_api::prototype::Prototype;
use dl_api::Fault;

fn s(text: &str) -> String {
    text.to_string()
}

fn func(def: &str, modules: &[&str], pat: &[&str]) -> Func {
    Func {
        def: s(def),
        modules: modules.iter().map(|m| s(m)).collect(),
        doc: None,
        pat: pat.iter().map(|p| s(p)).collect(),
    }
}

fn description(funcs: Vec<Func>) -> SafeFFI {
    SafeFFI { unions: vec![], enums: vec![], addresses: vec![], structs: vec![], funcs }
}

#[test]
fn new_slot_becomes_the_result() {
    let proto = Prototype::from_str("int32_t foo_new(uint32_t* out)").unwrap();
    let f = interpret(&proto, &vec![Instruction::New(s("out"))], &vec![]).unwrap();
    assert!(f.params.is_empty());
    assert_eq!(f.preamble, vec![Setup { kind: SetupKind::Slot, name: s("out") }]);
    assert_eq!(f.args, vec![Arg { kind: ArgKind::WritePtr, name: s("out") }]);
    assert_eq!(f.postamble, vec![Finish::Init(s("out"))]);
    assert_eq!(
        f.outputs,
        vec![Output { name: Some(s("out")), shape: OutputShape::Value, ty: s("u32") }]
    );
    assert_eq!(f.failure, None);
}

#[test]
fn checked_open_returns_a_fallible_handle() {
    let proto =
        Prototype::from_str("int32_t foo_open(const char* path, void** handle)").unwrap();
    let pats = vec![
        Instruction::Str(s("path")),
        Instruction::New(s("handle")),
        Instruction::Check(Comparator::Equal, s("0")),
    ];
    let f = interpret(&proto, &pats, &vec![]).unwrap();
    assert_eq!(
        f.params,
        vec![PublicParam { name: s("path"), shape: ParamShape::Text, ty: s("") }]
    );
    assert_eq!(
        f.args,
        vec![
            Arg { kind: ArgKind::ReadPtr, name: s("path") },
            Arg { kind: ArgKind::WritePtr, name: s("handle") },
        ]
    );
    assert_eq!(
        f.outputs,
        vec![Output { name: Some(s("handle")), shape: OutputShape::RawPointer, ty: s("") }]
    );
    assert_eq!(f.failure, Some(s("i32")));
    assert_eq!(
        f.postamble,
        vec![Finish::Init(s("handle")), Finish::FailIf(Comparator::NotEqual, s("0"))]
    );
}

#[test]
fn slice_with_unknown_length_is_unbound() {
    let proto = Prototype::from_str("void put(const uint8_t* data, uint32_t len)").unwrap();
    let pats = vec![Instruction::Slice(s("size"), s("data"))];
    assert_eq!(interpret(&proto, &pats, &vec![]), Err(Fault::UnboundParameter));
    let text = convert(
        &description(vec![func(
            "void put(const uint8_t* data, uint32_t len)",
            &["Io"],
            &["SLICE size data"],
        )]),
        String::new(),
        "io.so",
    );
    assert_eq!(text, Err(Fault::UnboundParameter));
}

#[test]
fn function_in_two_modules_gets_two_slots() {
    let f = func("int32_t foo_new(uint32_t* out)", &["Beta", "Alpha"], &["NEW out"]);
    let bindings = vec![FunctionBinding::new(&f).unwrap()];
    let assembly = assemble(&bindings);
    assert_eq!(assembly.slots, vec![0, 0]);
    assert_eq!(assembly.modules.len(), 2);
    assert_eq!(assembly.modules[0].name, "Alpha");
    assert_eq!(assembly.modules[0].members, vec![Member { slot: 1, func: 0 }]);
    assert_eq!(assembly.modules[1].name, "Beta");
    assert_eq!(assembly.modules[1].members, vec![Member { slot: 0, func: 0 }]);

    let text = convert(&description(vec![f]), String::new(), "foo.so.1").unwrap();
    println!("{}", text);
    assert!(text.contains("static mut FN_0_FOO_NEW:"));
    assert!(text.contains("static mut FN_1_FOO_NEW:"));
    let parts: Vec<&str> = text.split("\n/// A module contains functions.\n").collect();
    assert_eq!(parts.len(), 3);
    assert!(parts[1].starts_with("pub struct Alpha("));
    assert!(parts[2].starts_with("pub struct Beta("));
    assert!(parts[1].contains("FN_1_FOO_NEW") && !parts[1].contains("FN_0_FOO_NEW"));
    assert!(parts[2].contains("FN_0_FOO_NEW") && !parts[2].contains("FN_1_FOO_NEW"));
    assert_eq!(parts[1].replace("Alpha", "Beta").replace("FN_1_", "FN_0_"), parts[2]);
}

#[test]
fn unbound_position_is_a_fault() {
    let proto = Prototype::from_str("int f(int a, int b)").unwrap();
    let pats = vec![Instruction::Val(s("a"))];
    assert_eq!(interpret(&proto, &pats, &vec![]), Err(Fault::UnboundParameter));
    let both = vec![Instruction::Val(s("a")), Instruction::Val(s("b"))];
    let f = interpret(&proto, &both, &vec![]).unwrap();
    assert_eq!(f.args.len(), 2);
}

#[test]
fn second_check_is_a_fault() {
    let proto = Prototype::from_str("int f(int a)").unwrap();
    let one = vec![Instruction::Val(s("a")), Instruction::Check(Comparator::Equal, s("0"))];
    assert!(interpret(&proto, &one, &vec![]).is_ok());
    let two = vec![
        Instruction::Val(s("a")),
        Instruction::Check(Comparator::Equal, s("0")),
        Instruction::Check(Comparator::Less, s("9")),
    ];
    assert_eq!(interpret(&proto, &two, &vec![]), Err(Fault::DuplicateErrorCheck));
    let none = vec![Instruction::Val(s("a"))];
    assert!(interpret(&proto, &none, &vec![]).is_ok());
}

#[test]
fn opaque_value_is_borrowed_as_its_wrapper() {
    let addresses = vec![Address {
        name: s("widget_t"),
        doc: None,
        record: None,
        bytes: None,
        old: None,
    }];
    let proto = Prototype::from_str("void widget_show(widget_t* w)").unwrap();
    let f = interpret(&proto, &vec![Instruction::Val(s("w"))], &addresses).unwrap();
    assert_eq!(
        f.params,
        vec![PublicParam { name: s("w"), shape: ParamShape::Handle, ty: s("Widget") }]
    );
    assert_eq!(f.args, vec![Arg { kind: ArgKind::Inner, name: s("w") }]);
}
