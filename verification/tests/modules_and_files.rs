use zamm_yang::file::FileFragment;
use zamm_yang::fragment::{AtomicFragment, Fragment, ModuleFragment};

fn atom(s: &str) -> Fragment {
    Fragment::Atomic(AtomicFragment {
        imports: Vec::new(),
        atom: s.to_owned(),
    })
}

#[test]
fn test_regular_module() {
    let mut test_mod = ModuleFragment::new("my_mod".to_owned());
    test_mod.append(atom("fn a() {\n    println!(\"actually b\");\n}"));
    assert_eq!(test_mod.imports(), Vec::<String>::new());
    assert_eq!(
        test_mod.body(80),
        "mod my_mod {\n    fn a() {\n        println!(\"actually b\");\n    }\n}"
    );
}

#[test]
fn test_public_module() {
    let mut test_mod = ModuleFragment::new("my_mod".to_owned());
    test_mod.mark_as_public();
    test_mod.append(atom("fn a() {\n    println!(\"actually b\");\n}"));
    assert_eq!(test_mod.imports(), Vec::<String>::new());
    assert_eq!(
        test_mod.body(80),
        "pub mod my_mod {\n    fn a() {\n        println!(\"actually b\");\n    }\n}"
    );
}

#[test]
fn test_declared_module() {
    let mut test_mod = ModuleFragment::new("my_mod".to_owned());
    test_mod.mark_as_declare_only();
    assert_eq!(test_mod.imports(), Vec::<String>::new());
    assert_eq!(test_mod.body(80), "mod my_mod;".to_owned());
}

#[test]
fn test_publicly_declared_module() {
    let mut test_mod = ModuleFragment::new("my_mod".to_owned());
    test_mod.mark_as_declare_only();
    test_mod.mark_as_public();
    assert_eq!(test_mod.imports(), Vec::<String>::new());
    assert_eq!(test_mod.body(80), "pub mod my_mod;".to_owned());
}

#[test]
fn test_submodules() {
    let mut test_mod = ModuleFragment::new("my_dom".to_owned());
    test_mod.add_submodule("my_sub".to_owned()).mark_as_public();
    assert_eq!(test_mod.imports(), Vec::<String>::new());
    assert_eq!(test_mod.body(80), "mod my_dom {\n    pub mod my_sub;\n}");
}

#[test]
fn test_implemented_submodules() {
    let mut test_mod = ModuleFragment::new("my_dom".to_owned());
    test_mod
        .add_submodule("my_sub".to_owned())
        .mark_for_full_implementation();
    assert_eq!(test_mod.imports(), Vec::<String>::new());
    assert_eq!(
        test_mod.body(80),
        "mod my_dom {\n    mod my_sub {\n    }\n}"
    );
}

#[test]
fn test_sorted_submodules() {
    let mut test_mod = ModuleFragment::new("my_dom".to_owned());
    test_mod.add_submodule("sub_d".to_owned()).mark_as_public();
    test_mod.add_submodule("sub_b".to_owned());
    test_mod.add_submodule("sub_c".to_owned());
    test_mod.add_submodule("sub_a".to_owned()).mark_as_public();
    assert_eq!(test_mod.imports(), Vec::<String>::new());
    assert_eq!(
        test_mod.body(80),
        "mod my_dom {\n    pub mod sub_a;\n    pub mod sub_d;\n\n    mod sub_b;\n    mod sub_c;\n}"
    );
}

#[test]
fn test_re_exports() {
    let mut test_mod = ModuleFragment::new("my_dom".to_owned());
    test_mod.add_submodule("my_sub".to_owned());
    test_mod.re_export("my_sub::StructA".to_owned());
    test_mod.re_export("my_sub::StructB".to_owned());
    assert_eq!(test_mod.imports(), Vec::<String>::new());
    assert_eq!(
        test_mod.body(80),
        "mod my_dom {\n    mod my_sub;\n\n    pub use my_sub::{StructA, StructB};\n}"
    );
}

#[test]
fn test_as_entire_file() {
    let mut test_mod = ModuleFragment::new_file_module();
    test_mod.add_submodule("my_sub".to_owned());
    test_mod.re_export("my_sub::StructA".to_owned());
    test_mod.re_export("my_sub::StructB".to_owned());
    test_mod.append(atom("fn a() {\n    println!(\"actually b\");\n}"));
    assert_eq!(test_mod.imports(), Vec::<String>::new());
    assert_eq!(
        test_mod.body(80),
        "mod my_sub;\n\npub use my_sub::{StructA, StructB};\n\nfn a() {\n    println!(\"actually b\");\n}\n"
    );
}

#[test]
fn test_test_module() {
    let mut test_mod = ModuleFragment::new_test_module();
    test_mod.append(atom(
        "#[test]\nfn test_big() {\n    Big {\n        a: Something {},\n        b: OrTheOther {},\n    }\n}",
    ));
    assert_eq!(test_mod.imports(), Vec::<String>::new());
    assert_eq!(
        test_mod.body(80),
        "#[cfg(test)]\nmod tests {\n    use super::*;\n\n    #[test]\n    fn test_big() {\n        Big {\n            a: Something {},\n            b: OrTheOther {},\n        }\n    }\n}"
    );
}

#[test]
fn test_empty_file() {
    assert_eq!(FileFragment::new().generate_code(), "");
}

#[test]
fn test_file_with_preamble() {
    let mut file = FileFragment::new();
    file.set_current_crate("my_crate".to_owned());
    file.append(Fragment::Atomic(AtomicFragment {
        imports: vec![
            "std::OrTheOther".to_owned(),
            "my_crate::Something".to_owned(),
            "my_crate::Unused".to_owned(),
        ],
        atom: "pub struct Big {\n    a: Something,\n    b: OrTheOther,\n}".to_owned(),
    }));
    file.set_preamble(AtomicFragment {
        imports: vec![],
        atom: "#![allow(dead_code)]".to_owned(),
    });
    assert_eq!(
        file.generate_code(),
        "#![allow(dead_code)]\n\nuse crate::{Something, Unused};\nuse std::OrTheOther;\n\npub struct Big {\n    a: Something,\n    b: OrTheOther,\n}\n"
    );
}

#[test]
fn test_file_with_tests() {
    let mut file = FileFragment::new();
    file.append(Fragment::Atomic(AtomicFragment {
        imports: vec!["std::OrTheOther".to_owned(), "crate::Something".to_owned()],
        atom: "pub struct Big {\n    a: Something,\n    b: OrTheOther,\n}".to_owned(),
    }));
    file.append_test(atom(
        "#[test]\nfn test_big() {\n    Big {\n        a: Something {},\n        b: OrTheOther {},\n    }\n}",
    ));
    assert_eq!(
        file.generate_code(),
        "use crate::Something;\nuse std::OrTheOther;\n\npub struct Big {\n    a: Something,\n    b: OrTheOther,\n}\n\n#[cfg(test)]\nmod tests {\n    use super::*;\n\n    #[test]\n    fn test_big() {\n        Big {\n            a: Something {},\n            b: OrTheOther {},\n        }\n    }\n}\n"
    );
}

#[test]
fn file_leaves_out_its_own_import() {
    let mut file = FileFragment::new();
    file.set_self_import("crate::tao::Big".to_owned());
    file.append(Fragment::Atomic(AtomicFragment {
        imports: vec!["crate::tao::Big".to_owned(), "std::rc::Rc".to_owned()],
        atom: "pub struct Big(Rc<u8>);".to_owned(),
    }));
    assert_eq!(
        file.generate_code(),
        "use std::rc::Rc;\n\npub struct Big(Rc<u8>);\n"
    );
}

#[test]
fn empty_file_generates_nothing() {
    let file = FileFragment::new();
    assert_eq!(file.generate_code(), "");
}

#[test]
fn file_drops_every_copy_of_its_own_import() {
    let mut file = FileFragment::new();
    file.set_self_import("crate::tao::Big".to_owned());
    file.append(Fragment::Atomic(AtomicFragment {
        imports: vec![
            "crate::tao::Big".to_owned(),
            "std::rc::Rc".to_owned(),
            "crate::tao::Big".to_owned(),
        ],
        atom: "pub struct Big(Rc<u8>);".to_owned(),
    }));
    file.append(Fragment::Atomic(AtomicFragment {
        imports: vec!["crate::tao::Big".to_owned(), "std::cell::RefCell".to_owned()],
        atom: "pub struct Small(RefCell<u8>);".to_owned(),
    }));
    assert_eq!(
        file.generate_code(),
        "use std::cell::RefCell;\nuse std::rc::Rc;\n\npub struct Big(Rc<u8>);\n\npub struct Small(RefCell<u8>);\n"
    );
}
