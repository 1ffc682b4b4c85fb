use dl_api::interpreter::interpret;
use dl_api::interpreter::Arg;
use dl_api::interpreter::ArgKind;
use dl_api::interpreter::Finish;
use dl_api::interpreter::Output;
use dl_api::interpreter::OutputShape;
use dl_api::interpreter::ParamShape;
use dl_api::interpreter::PublicParam;
use dl_api::interpreter::SafeFunction;
use dl_api::interpreter::Setup;
use dl_api::interpreter::SetupKind;
use dl_api::model::Address;
use dl_api::pattern::Comparator;
use dl_api::pattern::Instruction;
use dl_api::prototype::Prototype;
use dl_api::Fault;

fn s(text: &str) -> String {
    text.to_string()
}

fn addresses() -> Vec<Address> {
    vec![Address { name: s("widget_t"), doc: None, record: None, bytes: None, old: None }]
}

fn run(def: &str, pats: &[&str]) -> Result<SafeFunction, Fault> {
    let proto = Prototype::from_str(def).unwrap();
    let pats: Vec<Instruction<String>> =
        pats.iter().map(|p| Instruction::parse(p).unwrap()).collect();
    interpret(&proto, &pats, &addresses())
}

fn param(name: &str, shape: ParamShape, ty: &str) -> PublicParam<String> {
    PublicParam { name: s(name), shape, ty: s(ty) }
}

fn arg(kind: ArgKind, name: &str) -> Arg<String> {
    Arg { kind, name: s(name) }
}

fn setup(kind: SetupKind, name: &str) -> Setup<String> {
    Setup { kind, name: s(name) }
}

#[test]
fn a_function_without_parameters_needs_no_instruction() {
    let f = run("void tick()", &[]).unwrap();
    assert_eq!(
        f,
        SafeFunction {
            params: vec![],
            preamble: vec![],
            args: vec![],
            postamble: vec![],
            outputs: vec![],
            failure: None,
        }
    );
}

#[test]
fn raw_handles_pass_through() {
    let f = run("void f(void* p)", &["RAW p"]).unwrap();
    assert_eq!(f.params, vec![param("p", ParamShape::RawHandle, "")]);
    assert_eq!(f.args, vec![arg(ArgKind::Verbatim, "p")]);
    assert!(f.preamble.is_empty() && f.postamble.is_empty() && f.outputs.is_empty());
}

#[test]
fn scalars_are_cast() {
    let f = run("void f(unsigned long n)", &["VAL n"]).unwrap();
    assert_eq!(f.params, vec![param("n", ParamShape::Value, "usize")]);
    assert_eq!(f.args, vec![arg(ArgKind::Cast, "n")]);
}

#[test]
fn structs_are_borrowed_as_wrappers() {
    let f = run("void f(my_point p, widget_t* w)", &["VAL p", "VAL w"]).unwrap();
    assert_eq!(
        f.params,
        vec![param("p", ParamShape::Handle, "MyPoint"), param("w", ParamShape::Handle, "Widget")]
    );
    assert_eq!(f.args, vec![arg(ArgKind::Inner, "p"), arg(ArgKind::Inner, "w")]);
    assert_eq!(run("void f(my_point* p)", &["MUT p"]), Err(Fault::UnsupportedConstruct));
    assert_eq!(run("void f(my_point* p, int n)", &["SLICE n p"]), Err(Fault::UnsupportedConstruct));
    assert!(run("void f(my_point* p)", &["OLD p"]).is_ok());
}

#[test]
fn mutable_scalars_go_through_a_temporary() {
    let f = run("void f(int* n)", &["MUT n"]).unwrap();
    assert_eq!(f.params, vec![param("n", ParamShape::MutValue, "i32")]);
    assert_eq!(f.preamble, vec![setup(SetupKind::Temp, "n")]);
    assert_eq!(f.args, vec![arg(ArgKind::TempAddr, "n")]);
    assert_eq!(f.postamble, vec![Finish::Store(s("n"))]);
}

#[test]
fn optional_scalars_may_be_absent() {
    let f = run("void f(int* n)", &["OPT_MUT n"]).unwrap();
    assert_eq!(f.params, vec![param("n", ParamShape::OptMutValue, "i32")]);
    assert_eq!(f.preamble, vec![setup(SetupKind::OptTemp, "n")]);
    assert_eq!(f.args, vec![arg(ArgKind::OptTempAddr, "n")]);
    assert_eq!(f.postamble, vec![Finish::OptStore(s("n"))]);
}

#[test]
fn released_handles_are_checked_and_marked() {
    let f = run("void f(widget_t* w)", &["OLD w"]).unwrap();
    assert_eq!(f.params, vec![param("w", ParamShape::MutHandle, "Widget")]);
    assert_eq!(f.preamble, vec![setup(SetupKind::Live, "w")]);
    assert_eq!(f.args, vec![arg(ArgKind::Inner, "w")]);
    assert_eq!(f.postamble, vec![Finish::Null(s("w"))]);
}

#[test]
fn slices_fill_pointer_and_length() {
    let f = run("void f(uint32_t n, const float* data)", &["SLICE n data"]).unwrap();
    assert_eq!(f.params, vec![param("data", ParamShape::Slice, "f32")]);
    assert_eq!(f.args, vec![arg(ArgKind::Len, "data"), arg(ArgKind::ReadPtr, "data")]);
}

#[test]
fn buffers_take_their_length_from_the_call() {
    let f = run("int f(char* buf, int cap)", &["OUT_VEC cap buf"]).unwrap();
    assert_eq!(f.params, vec![param("buf", ParamShape::Buffer, "char")]);
    assert_eq!(f.args, vec![arg(ArgKind::WritePtr, "buf"), arg(ArgKind::Capacity, "buf")]);
    assert_eq!(f.postamble, vec![Finish::SetLen(s("buf"), None)]);
    let f = run("int f(char* buf, int cap, int* n)", &["MUT n", "OUT_VEC cap buf n"]).unwrap();
    assert_eq!(f.postamble, vec![Finish::Store(s("n")), Finish::SetLen(s("buf"), Some(s("n")))]);
}

#[test]
fn results_come_in_the_order_of_the_instructions() {
    let f = run(
        "widget_t* f(int* a, void** b, widget_t** c)",
        &["NEW c", "OUT", "NEW a", "NEW b", "OUT a"],
    )
    .unwrap();
    assert!(f.params.is_empty());
    assert_eq!(
        f.outputs,
        vec![
            Output { name: Some(s("c")), shape: OutputShape::Handle, ty: s("Widget") },
            Output { name: None, shape: OutputShape::Handle, ty: s("Widget") },
            Output { name: Some(s("a")), shape: OutputShape::Value, ty: s("i32") },
            Output { name: Some(s("b")), shape: OutputShape::RawPointer, ty: s("") },
            Output { name: Some(s("a")), shape: OutputShape::Value, ty: s("i32") },
        ]
    );
    assert_eq!(
        f.args,
        vec![arg(ArgKind::WritePtr, "a"), arg(ArgKind::WritePtr, "b"), arg(ArgKind::WritePtr, "c")]
    );
    assert_eq!(
        f.preamble,
        vec![setup(SetupKind::Slot, "c"), setup(SetupKind::Slot, "a"), setup(SetupKind::Slot, "b")]
    );
}

#[test]
fn the_check_selects_failure_by_the_negated_comparator() {
    for (text, negated) in [
        ("OK = 0", Comparator::NotEqual),
        ("OK < 0", Comparator::GreaterEqual),
        ("OK > 0", Comparator::LessEqual),
        ("OK <= 0", Comparator::Greater),
        ("OK >= 0", Comparator::Less),
        ("OK != 0", Comparator::Equal),
    ] {
        let f = run("long f()", &[text]).unwrap();
        assert_eq!(f.postamble, vec![Finish::FailIf(negated, s("0"))]);
        assert_eq!(f.failure, Some(s("isize")));
    }
}

#[test]
fn names_that_the_prototype_lacks_are_unbound() {
    for pats in [
        &["NEW x"][..],
        &["STR x"],
        &["RAW x"],
        &["VAL x"],
        &["MUT x"],
        &["OPT_MUT x"],
        &["OLD x"],
        &["OUT x"],
        &["SLICE x a"],
        &["SLICE b x"],
        &["OUT_VEC x a"],
        &["OUT_VEC b x"],
        &["OUT_VEC b a x"],
    ] {
        assert_eq!(run("int f(int* a, int b)", pats), Err(Fault::UnboundParameter), "{:?}", pats);
    }
}

#[test]
fn a_named_result_has_to_be_bound_before() {
    assert_eq!(run("int f(int* a)", &["OUT a", "NEW a"]), Err(Fault::UnboundParameter));
    assert_eq!(run("int f(int* a)", &["OUT a"]), Err(Fault::UnboundParameter));
    assert!(run("int f(int* a)", &["MUT a", "OUT a"]).is_ok());
}

#[test]
fn positions_left_unfilled_are_unbound() {
    assert_eq!(run("int f(int a)", &[]), Err(Fault::UnboundParameter));
    assert_eq!(run("int f(int a, int b)", &["VAL b"]), Err(Fault::UnboundParameter));
    assert_eq!(run("int f(int a, int b)", &["VAL a", "OUT", "OK = 0"]), Err(Fault::UnboundParameter));
}

#[test]
fn a_position_is_filled_once() {
    assert_eq!(run("int f(int a)", &["VAL a", "VAL a"]), Err(Fault::UnsupportedConstruct));
    assert_eq!(run("int f(int* a)", &["NEW a", "MUT a"]), Err(Fault::UnsupportedConstruct));
    assert_eq!(run("int f(int* a)", &["SLICE a a"]), Err(Fault::UnsupportedConstruct));
    assert_eq!(run("int f(int a, int a)", &["VAL a", "VAL a"]), Err(Fault::UnsupportedConstruct));
}

#[test]
fn constant_targets_cannot_be_changed() {
    assert_eq!(run("void f(const int* a)", &["MUT a"]), Err(Fault::UnsupportedConstruct));
    assert_eq!(run("void f(const int* a)", &["OPT_MUT a"]), Err(Fault::UnsupportedConstruct));
    assert_eq!(run("void f(const widget_t* a)", &["OLD a"]), Err(Fault::UnsupportedConstruct));
}

#[test]
fn handles_and_scalars_are_not_exchanged() {
    assert_eq!(run("void f(widget_t* a)", &["MUT a"]), Err(Fault::UnsupportedConstruct));
    assert_eq!(run("void f(widget_t* a)", &["OPT_MUT a"]), Err(Fault::UnsupportedConstruct));
    assert_eq!(run("void f(int* a)", &["OLD a"]), Err(Fault::UnsupportedConstruct));
    assert_eq!(run("void f(widget_t** a, int n)", &["SLICE n a"]), Err(Fault::UnsupportedConstruct));
    assert_eq!(
        run("void f(widget_t** a, int n)", &["OUT_VEC n a"]),
        Err(Fault::UnsupportedConstruct)
    );
}

#[test]
fn the_first_fault_is_reported() {
    assert_eq!(
        run("int f(int a)", &["OK = 0", "VAL x", "OK = 0"]),
        Err(Fault::UnboundParameter)
    );
    assert_eq!(
        run("int f(int a)", &["OK = 0", "OK = 0", "VAL x"]),
        Err(Fault::DuplicateErrorCheck)
    );
    assert_eq!(
        run("int f(int a, int b)", &["VAL a", "VAL a", "OK = 0", "OK = 0"]),
        Err(Fault::UnsupportedConstruct)
    );
}
