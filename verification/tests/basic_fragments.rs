use zamm_yang::fragment::{
    AppendedFragment, AssertFragment, AtomicFragment, Fragment, FunctionCallFragment,
    FunctionFragment, NestedFragment, VecFragment,
};

fn atom(s: &str) -> Fragment {
    Fragment::Atomic(AtomicFragment::new(s.to_owned()))
}

fn atom_with(import: &str, s: &str) -> AtomicFragment {
    AtomicFragment {
        imports: vec![import.to_owned()],
        atom: s.to_owned(),
    }
}

#[test]
fn test_append_empty() {
    let appended = AppendedFragment::new();
    assert_eq!(appended.imports(), Vec::<String>::default());
    assert_eq!(appended.body(80), "");
}

#[test]
fn test_append_one() {
    let mut appended = AppendedFragment::new();
    appended.append(atom("one"));
    assert_eq!(appended.imports(), Vec::<String>::default());
    assert_eq!(appended.body(80), "one");
}

#[test]
fn test_append_one_actual() {
    let mut appended = AppendedFragment::new();
    appended.append(atom("one"));
    appended.append(Fragment::Atomic(AtomicFragment::new(String::default())));
    assert_eq!(appended.imports(), Vec::<String>::default());
    assert_eq!(appended.body(80), "one");
}

#[test]
fn test_append() {
    let line1 = atom_with("foreign_crate::sub::ForeignStruct", "let mut f = ForeignStruct {};");
    let line2 = atom_with("foreign_crate::FooBarTrait", "f.foo_bar()");
    let mut appended = AppendedFragment::new_with_separator("\n");
    appended.append(Fragment::Atomic(line1));
    appended.append(Fragment::Atomic(line2));
    assert_eq!(
        appended.imports(),
        vec![
            "foreign_crate::sub::ForeignStruct".to_owned(),
            "foreign_crate::FooBarTrait".to_owned()
        ]
    );
    assert_eq!(
        appended.body(80),
        "let mut f = ForeignStruct {};\nf.foo_bar()"
    );
}

#[test]
fn test_prepend() {
    let line1 = atom_with("foreign_crate::sub::ForeignStruct", "let mut f = ForeignStruct {};");
    let line2 = atom_with("foreign_crate::FooBarTrait", "f.foo_bar()");
    let mut appended = AppendedFragment::new_with_separator("\n");
    appended.prepend(Fragment::Atomic(line2));
    appended.prepend(Fragment::Atomic(line1));
    assert_eq!(
        appended.imports(),
        vec![
            "foreign_crate::sub::ForeignStruct".to_owned(),
            "foreign_crate::FooBarTrait".to_owned()
        ]
    );
    assert_eq!(
        appended.body(80),
        "let mut f = ForeignStruct {};\nf.foo_bar()"
    );
}

#[test]
fn test_assert_eq() {
    assert_eq!(
        AssertFragment::new_eq(atom("x"), atom("y")).body(80),
        "assert_eq!(x, y);"
    );
}

#[test]
fn test_atom() {
    let line = atom_with("foreign_crate::sub::ForeignStruct", "let mut f = ForeignStruct {};");
    assert_eq!(
        line.imports(),
        vec!["foreign_crate::sub::ForeignStruct".to_owned()]
    );
    assert_eq!(line.body(80), "let mut f = ForeignStruct {};".to_owned());
}

#[test]
fn test_empty_call() {
    let f = FunctionCallFragment::new(AtomicFragment::new("foo".to_owned()));
    assert_eq!(f.body(80), "foo();");
}

#[test]
fn test_call_arguments() {
    let mut f = FunctionCallFragment::new(AtomicFragment::new("foo".to_owned()));
    f.add_argument(atom("bar"));
    f.add_argument(atom("baz"));
    assert_eq!(f.body(80), "foo(bar, baz);");
}

#[test]
fn test_call_arguments_multiline() {
    let mut f = FunctionCallFragment::new(AtomicFragment::new("foo".to_owned()));
    f.add_argument(atom("bar"));
    f.add_argument(atom("baz"));
    assert_eq!(f.body(8), "foo(\n    bar,\n    baz,\n);");
}

#[test]
fn test_call_macro_multiline() {
    let mut f = FunctionCallFragment::new(AtomicFragment::new("assert_eq".to_owned()));
    f.mark_macro();
    f.add_argument(atom("bar"));
    f.add_argument(atom("baz"));
    assert_eq!(f.body(8), "assert_eq!(\n    bar,\n    baz\n);");
}

#[test]
fn test_empty_vec() {
    let f = VecFragment::new();
    assert_eq!(f.body(80), "vec![]");
}

#[test]
fn test_vec_elements() {
    let mut f = VecFragment::new();
    f.add_element(atom("bar"));
    f.add_element(atom("baz"));
    assert_eq!(f.body(80), "vec![bar, baz]");
}

#[test]
fn test_vec_elements_multiline() {
    let mut f = VecFragment::new();
    f.add_element(atom("bar"));
    f.add_element(atom("baz"));
    assert_eq!(f.body(8), "vec![\n    bar,\n    baz\n]");
}

#[test]
fn test_nest() {
    let line1 = atom_with("foreign_crate::sub::ForeignStruct", "let mut f = ForeignStruct {};");
    let line2 = atom_with("foreign_crate::FooBarTrait", "f.foo_bar()");
    let mut appended = AppendedFragment::new_with_separator("\n");
    appended.append(Fragment::Atomic(line1));
    appended.append(Fragment::Atomic(line2));
    let mut nested = NestedFragment::new(
        atom_with("std::official::RustStruct", "fn new_rust_struct() -> RustStruct {"),
        "}",
    );
    nested.set_nesting(Fragment::Appended(appended));
    assert_eq!(
        nested.imports(),
        vec![
            "std::official::RustStruct".to_owned(),
            "foreign_crate::sub::ForeignStruct".to_owned(),
            "foreign_crate::FooBarTrait".to_owned()
        ]
    );
    assert_eq!(
        nested.body(80),
        "fn new_rust_struct() -> RustStruct {\n    let mut f = ForeignStruct {};\n    f.foo_bar()\n}"
    );
}

#[test]
fn test_empty_nest() {
    let nested = NestedFragment::new(atom_with("std::official::RustStruct", "RustStruct {"), "}");
    assert_eq!(nested.imports(), vec!["std::official::RustStruct".to_owned(),]);
    assert_eq!(nested.body(80), "RustStruct {}");
}

#[test]
fn test_nest_empty_contents() {
    let mut nested =
        NestedFragment::new(atom_with("std::official::RustStruct", "RustStruct {"), "}");
    nested.set_nesting(Fragment::Appended(AppendedFragment::new()));
    assert_eq!(nested.imports(), vec!["std::official::RustStruct".to_owned(),]);
    assert_eq!(nested.body(80), "RustStruct {}");
}

#[test]
fn test_nest_short_contents() {
    let mut nested = NestedFragment::new(AtomicFragment::new("foo(".to_owned()), ");");
    nested.set_nesting_postfix(",");
    nested.set_nesting(atom("bar"));
    assert_eq!(nested.body(80), "foo(bar);");
}

#[test]
fn test_nest_newlined_contents() {
    let mut nested = NestedFragment::new(AtomicFragment::new("foo(".to_owned()), ");");
    nested.set_nesting_postfix(",");
    nested.set_nesting(atom("bar(\n    1,\n    2,\n)"));
    assert_eq!(
        nested.body(80),
        "foo(\n    bar(\n        1,\n        2,\n    ),\n);"
    );
}

#[test]
fn test_empty_function() {
    let f = FunctionFragment::new("foo".to_owned());
    assert_eq!(f.imports(), Vec::<String>::new());
    assert_eq!(f.body(80), "fn foo() {\n}");
}

#[test]
fn test_documented_function() {
    let mut f = FunctionFragment::new("foo".to_owned());
    f.set_documentation("This is a function.".to_owned());
    assert_eq!(f.imports(), Vec::<String>::new());
    assert_eq!(f.body(80), "/// This is a function.\nfn foo() {\n}");
}

#[test]
fn test_public_function() {
    let mut f = FunctionFragment::new("foo".to_owned());
    f.make_public();
    assert_eq!(f.imports(), Vec::<String>::new());
    assert_eq!(f.body(80), "pub fn foo() {\n}");
}

#[test]
fn test_function_return() {
    let mut f = FunctionFragment::new("foo".to_owned());
    f.make_public();
    f.set_return("()".to_owned());
    assert_eq!(f.imports(), Vec::<String>::new());
    assert_eq!(f.body(80), "pub fn foo() -> () {\n}");
}

#[test]
fn test_function_statements_return() {
    let mut f = FunctionFragment::new("foo".to_owned());
    f.set_return("i64".to_owned());
    f.append(Fragment::Atomic(AtomicFragment {
        imports: Vec::<String>::default(),
        atom: "4".to_owned(),
    }));
    assert_eq!(f.imports(), Vec::<String>::new());
    assert_eq!(f.body(80), "fn foo() -> i64 {\n    4\n}");
}

#[test]
fn test_function_args() {
    let mut f = FunctionFragment::new("foo".to_owned());
    f.set_return("i64".to_owned());
    f.add_arg("x".to_owned(), "i64".to_owned());
    f.add_arg("y".to_owned(), "u64".to_owned());
    f.append(Fragment::Atomic(AtomicFragment {
        imports: Vec::<String>::default(),
        atom: "x + y".to_owned(),
    }));
    assert_eq!(f.imports(), Vec::<String>::new());
    assert_eq!(f.body(80), "fn foo(x: i64, y: u64) -> i64 {\n    x + y\n}");
}

#[test]
fn test_function_imports() {
    let mut f = FunctionFragment::new("foo".to_owned());
    f.set_documentation("This function adds two custom numbers together.".to_owned());
    f.make_public();
    f.add_import("crate::MyNum".to_owned());
    f.set_return("MyNum".to_owned());
    f.add_arg("x".to_owned(), "MyNum".to_owned());
    f.add_arg("y".to_owned(), "MyNum".to_owned());
    f.append(Fragment::Atomic(AtomicFragment {
        imports: vec!["crate::operators::plus".to_owned()],
        atom: "x + y".to_owned(),
    }));
    assert_eq!(f.imports(), vec!["crate::MyNum", "crate::operators::plus"]);
    assert_eq!(
        f.body(80),
        "/// This function adds two custom numbers together.\npub fn foo(x: MyNum, y: MyNum) -> MyNum {\n    x + y\n}"
    );
}
