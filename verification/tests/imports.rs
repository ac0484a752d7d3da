use std::collections::HashSet;
use zamm_yang::imports::{group_imports, imports_as_str, sort_imports};

fn vec_as_set(inputs: Vec<String>) -> HashSet<String> {
    let mut set = HashSet::new();
    for input in inputs {
        set.insert(input);
    }
    set
}

#[test]
fn test_sort_imports_crate() {
    assert_eq!(
        sort_imports(&[
            "std::convert::TryFrom",
            "std::fmt::{Debug, Formatter}",
            "std::fmt",
            "std::rc::Rc",
            "crate::concept::attributes::{Attribute, AttributeTrait}",
            "crate::concept::{ArchetypeTrait, FormTrait, Tao}",
            "crate::node_wrappers::{debug_wrapper, CommonNodeTrait, FinalNode}"
        ]),
        &[
            "crate::concept::attributes::{Attribute, AttributeTrait}",
            "crate::concept::{ArchetypeTrait, FormTrait, Tao}",
            "crate::node_wrappers::{debug_wrapper, CommonNodeTrait, FinalNode}",
            "std::convert::TryFrom",
            "std::fmt",
            "std::fmt::{Debug, Formatter}",
            "std::rc::Rc",
        ]
    );
}

#[test]
fn test_sort_imports_super() {
    assert_eq!(
        sort_imports(&[
            "crate::concept::attributes::{Attribute, AttributeTrait}",
            "crate::concept::{ArchetypeTrait, FormTrait, Tao}",
            "crate::node_wrappers::{debug_wrapper, CommonNodeTrait, FinalNode}",
            "super::ParentTrait"
        ]),
        &[
            "super::ParentTrait",
            "crate::concept::attributes::{Attribute, AttributeTrait}",
            "crate::concept::{ArchetypeTrait, FormTrait, Tao}",
            "crate::node_wrappers::{debug_wrapper, CommonNodeTrait, FinalNode}"
        ]
    );
}

#[test]
fn test_sort_imports_ignore_empty() {
    assert_eq!(
        sort_imports(&[
            "crate::concept::attributes::{Attribute, AttributeTrait}",
            "",
            "crate::concept::{ArchetypeTrait, FormTrait, Tao}",
            "",
            "",
            "crate::node_wrappers::{debug_wrapper, CommonNodeTrait, FinalNode}",
            "super::ParentTrait"
        ]),
        &[
            "super::ParentTrait",
            "crate::concept::attributes::{Attribute, AttributeTrait}",
            "crate::concept::{ArchetypeTrait, FormTrait, Tao}",
            "crate::node_wrappers::{debug_wrapper, CommonNodeTrait, FinalNode}",
        ]
    );
}

#[test]
fn test_sort_imports_struct_vs_module() {
    assert_eq!(
        sort_imports(&[
            "zamm_yin::tao::Tao",
            "zamm_yin::tao::archetype::ArchetypeFormTrait",
            "zamm_yin::tao::attribute::{Owner, Value}",
        ]),
        &[
            "zamm_yin::tao::archetype::ArchetypeFormTrait",
            "zamm_yin::tao::attribute::{Owner, Value}",
            "zamm_yin::tao::Tao",
        ]
    );
}

#[test]
fn test_sort_imports_module_no_struct() {
    assert_eq!(
        sort_imports(&["std::fmt", "std::convert::TryFrom",]),
        &["std::convert::TryFrom", "std::fmt",]
    );
}

#[test]
fn test_group_import_none() {
    assert_eq!(group_imports(&[]), Vec::<String>::new());
}

#[test]
fn test_group_import_uniques() {
    assert_eq!(
        vec_as_set(group_imports(&["std::cell::Cell", "std::rc::Rc"])),
        vec_as_set(vec!["std::cell::Cell".to_owned(), "std::rc::Rc".to_owned()])
    );
}

#[test]
fn test_group_import_groups() {
    assert_eq!(
        vec_as_set(group_imports(&[
            "std::cell::RefCell",
            "std::rc::Rc",
            "std::cell::Cell"
        ])),
        vec_as_set(vec![
            "std::cell::{Cell, RefCell}".to_owned(),
            "std::rc::Rc".to_owned()
        ])
    );
}

#[test]
fn test_group_import_repeats() {
    assert_eq!(
        vec_as_set(group_imports(&[
            "std::cell::RefCell",
            "std::rc::Rc",
            "std::cell::RefCell"
        ])),
        vec_as_set(vec!["std::cell::RefCell".to_owned(), "std::rc::Rc".to_owned()])
    );
}

#[test]
fn test_group_imports_lowercase() {
    assert_eq!(
        vec_as_set(group_imports(&[
            "my::mod::lowercase",
            "my::mod::ABCs",
            "my::mod::btr",
            "my::mod::KComplexity"
        ])),
        vec_as_set(vec!["my::mod::{btr, lowercase, ABCs, KComplexity}".to_owned()])
    );
}

#[test]
fn test_imports_as_str() {
    assert_eq!(
        imports_as_str(&["std::cell::RefCell", "std::rc::Rc", "std::cell::Cell"]),
        "use std::cell::{Cell, RefCell};\nuse std::rc::Rc;"
    );
}

#[test]
fn imports_text_ignores_order_and_repeats() {
    let a = imports_as_str(&[
        "std::cell::RefCell",
        "super::Parent",
        "std::rc::Rc",
        "crate::tao::Form",
        "std::cell::Cell",
        "crate::tao::form",
    ]);
    let b = imports_as_str(&[
        "crate::tao::form",
        "std::cell::Cell",
        "std::rc::Rc",
        "crate::tao::Form",
        "super::Parent",
        "std::cell::RefCell",
        "std::rc::Rc",
        "std::cell::Cell",
    ]);
    assert_eq!(a, b);
    assert_eq!(
        a,
        "use super::Parent;\nuse crate::tao::{form, Form};\nuse std::cell::{Cell, RefCell};\nuse std::rc::Rc;"
    );
}
