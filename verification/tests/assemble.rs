use dl_api::assemble::assemble;
use dl_api::assemble::comes_before;
use dl_api::assemble::place;
use dl_api::assemble::Member;
use dl_api::assemble::Module;
use dl_api::binding::FunctionBinding;
use dl_api::model::Func;

fn binding(name: &str, modules: &[&str]) -> FunctionBinding {
    FunctionBinding::new(&Func {
        def: format!("void {}()", name),
        modules: modules.iter().map(|m| m.to_string()).collect(),
        doc: None,
        pat: vec![],
    })
    .unwrap()
}

fn module(name: &str, members: &[(usize, usize)]) -> Module {
    Module {
        name: name.to_string(),
        members: members.iter().map(|m| Member { slot: m.0, func: m.1 }).collect(),
    }
}

#[test]
fn orders_strings_as_the_standard_library_does() {
    let words = ["", "A", "B", "a", "ab", "abc", "abd", "b", "é", "\u{1F600}", "Z", "aa", "a\u{0}"];
    for x in words {
        for y in words {
            assert_eq!(comes_before(x, y), x < y, "{:?} before {:?}", x, y);
        }
    }
}

#[test]
fn keeps_modules_sorted_by_name() {
    let bindings = vec![
        binding("one", &["Gamma", "Alpha"]),
        binding("two", &["Beta"]),
        binding("three", &["Alpha", "Delta", "Beta"]),
    ];
    let assembly = assemble(&bindings);
    assert_eq!(assembly.slots, vec![0, 0, 1, 2, 2, 2]);
    assert_eq!(
        assembly.modules,
        vec![
            module("Alpha", &[(1, 0), (3, 2)]),
            module("Beta", &[(2, 1), (5, 2)]),
            module("Delta", &[(4, 2)]),
            module("Gamma", &[(0, 0)]),
        ]
    );
}

#[test]
fn a_function_without_modules_has_no_slot() {
    let assembly = assemble(&vec![binding("one", &[]), binding("two", &["M"])]);
    assert_eq!(assembly.slots, vec![1]);
    assert_eq!(assembly.modules, vec![module("M", &[(0, 1)])]);
    let nothing = assemble(&vec![]);
    assert!(nothing.slots.is_empty() && nothing.modules.is_empty());
}

#[test]
fn a_module_listed_twice_holds_the_function_twice() {
    let assembly = assemble(&vec![binding("one", &["M", "M"])]);
    assert_eq!(assembly.slots, vec![0, 0]);
    assert_eq!(assembly.modules, vec![module("M", &[(0, 0), (1, 0)])]);
}

#[test]
fn places_a_member_where_its_module_belongs() {
    let mut mods = vec![module("B", &[(0, 0)]), module("D", &[(1, 0)])];
    place(&mut mods, &"C".to_string(), Member { slot: 2, func: 1 });
    place(&mut mods, &"A".to_string(), Member { slot: 3, func: 1 });
    place(&mut mods, &"E".to_string(), Member { slot: 4, func: 2 });
    place(&mut mods, &"D".to_string(), Member { slot: 5, func: 2 });
    assert_eq!(
        mods,
        vec![
            module("A", &[(3, 1)]),
            module("B", &[(0, 0)]),
            module("C", &[(2, 1)]),
            module("D", &[(1, 0), (5, 2)]),
            module("E", &[(4, 2)]),
        ]
    );
}
