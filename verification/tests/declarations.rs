use zamm_yang::fragment::{
    AtomicFragment, Fragment, ImplementationFragment, ItemDeclaration, StructConfig,
    TraitFragment, TypeDeclaration, TypeFragment,
};

fn cfg(name: &str, import: &str) -> StructConfig {
    StructConfig {
        name: name.to_owned(),
        import: import.to_owned(),
    }
}

fn atom(imports: Vec<&str>, s: &str) -> Fragment {
    Fragment::Atomic(AtomicFragment {
        imports: imports.into_iter().map(|i| i.to_owned()).collect(),
        atom: s.to_owned(),
    })
}

#[test]
fn test_empty_impl() {
    let f = ImplementationFragment::new_struct_impl(cfg("Bar", "crate::Bar"));
    assert_eq!(f.body(80), "impl Bar {}");
}

#[test]
fn test_empty_trait_impl() {
    let f = ImplementationFragment::new_trait_impl(cfg("Foo", "crate::Foo"), cfg("Bar", "crate::Bar"));
    assert_eq!(f.body(80), "impl Foo for Bar {}");
}

#[test]
fn test_trait_impl_with_lifetimes() {
    let mut f = ImplementationFragment::new_trait_impl(
        cfg("Foo<'a, 'b>", "crate::Foo"),
        cfg("Bar", "crate::Bar"),
    );
    f.add_lifetime('a');
    f.add_lifetime('b');
    assert_eq!(f.body(80), "impl<'a, 'b> Foo<'a, 'b> for Bar {}");
}

#[test]
fn test_impl_content() {
    let mut f = ImplementationFragment::new_trait_impl(cfg("Foo", "crate::Foo"), cfg("Bar", "crate::Bar"));
    f.append(atom(
        vec![],
        "fn foo_capability(&mut self) {\n    self.bar_value = 123;\n}",
    ));
    f.append(atom(
        vec![],
        "fn foo_capability2(&mut self) {\n    self.bar_value = 123;\n}",
    ));
    assert_eq!(
        f.body(80),
        "impl Foo for Bar {\n    fn foo_capability(&mut self) {\n        self.bar_value = 123;\n    }\n\n    fn foo_capability2(&mut self) {\n        self.bar_value = 123;\n    }\n}"
    );
}

#[test]
fn test_trait_imports_separate_file() {
    let mut f = ImplementationFragment::new_trait_impl(cfg("Foo", "crate::Foo"), cfg("Bar", "crate::Bar"));
    f.append(atom(
        vec!["std::rc::Rc"],
        "fn foo_capability(&mut self) {\n    self.bar_value = 123;\n}",
    ));
    assert_eq!(f.imports(), vec!["std::rc::Rc", "crate::Foo", "crate::Bar"]);
}

#[test]
fn test_trait_imports_same_file() {
    let mut f = ImplementationFragment::new_trait_impl(cfg("Foo", "crate::Foo"), cfg("Bar", "crate::Bar"));
    f.mark_same_file_as_trait();
    f.mark_same_file_as_struct();
    f.append(atom(
        vec!["std::rc::Rc"],
        "fn foo_capability(&mut self) {\n    self.bar_value = 123;\n}",
    ));
    assert_eq!(f.imports(), vec!["std::rc::Rc"]);
}

fn simple_declaration() -> ItemDeclaration {
    ItemDeclaration::new(Fragment::Atomic(AtomicFragment::new(
        "fn foo() -> bool".to_owned(),
    )))
}

#[test]
fn test_simple_declaration() {
    let i = simple_declaration();
    assert_eq!(i.imports(), Vec::<String>::new());
    assert_eq!(i.body(80), "fn foo() -> bool;");
}

#[test]
fn test_public_declaration() {
    let mut i = simple_declaration();
    i.mark_as_public();
    assert_eq!(i.imports(), Vec::<String>::new());
    assert_eq!(i.body(80), "pub fn foo() -> bool;");
}

#[test]
fn test_documented_declaration() {
    let mut i = simple_declaration();
    i.document("Some bloody documentation for ya.".to_owned());
    assert_eq!(i.imports(), Vec::<String>::new());
    assert_eq!(
        i.body(80),
        "/// Some bloody documentation for ya.\nfn foo() -> bool;"
    );
}

#[test]
fn test_attributed_declaration() {
    let mut i = simple_declaration();
    i.add_attribute("allow(deprecated)".to_owned());
    assert_eq!(i.imports(), Vec::<String>::new());
    assert_eq!(i.body(80), "#[allow(deprecated)]\nfn foo() -> bool;");
}

#[test]
fn test_full_but_empty_declaration() {
    let mut i = simple_declaration();
    i.mark_for_full_implementation();
    assert_eq!(i.imports(), Vec::<String>::new());
    assert_eq!(i.body(80), "fn foo() -> bool {}");
}

#[test]
fn test_nonempty_declaration() {
    let mut i = simple_declaration();
    i.set_body(Fragment::Atomic(AtomicFragment::new("!bar()".to_owned())));
    assert_eq!(i.imports(), Vec::<String>::new());
    assert_eq!(i.body(80), "fn foo() -> bool {\n    !bar()\n}");
}

#[test]
fn test_combined_declaration() {
    let mut i = simple_declaration();
    i.mark_as_public();
    i.document("Some bloody documentation for ya.".to_owned());
    i.add_attribute("allow(deprecated)".to_owned());
    assert_eq!(i.imports(), Vec::<String>::new());
    assert_eq!(
        i.body(80),
        "/// Some bloody documentation for ya.\n#[allow(deprecated)]\npub fn foo() -> bool;"
    );
}

#[test]
fn test_empty_trait() {
    let f = TraitFragment::new("Foo".to_owned());
    assert_eq!(f.imports(), Vec::<String>::new());
    assert_eq!(f.body(80), "trait Foo {}");
}

#[test]
fn test_documented_trait() {
    let mut f = TraitFragment::new("Foo".to_owned());
    f.document("This is a trait.".to_owned());
    assert_eq!(f.imports(), Vec::<String>::new());
    assert_eq!(f.body(80), "/// This is a trait.\ntrait Foo {}");
}

#[test]
fn test_public_trait() {
    let mut f = TraitFragment::new("Foo".to_owned());
    f.mark_as_public();
    assert_eq!(f.imports(), Vec::<String>::new());
    assert_eq!(f.body(80), "pub trait Foo {}");
}

#[test]
fn test_trait_requirements() {
    let mut f = TraitFragment::new("Foo".to_owned());
    f.add_required_trait(atom(vec!["crate::Bar"], "Bar"));
    f.add_required_trait(atom(vec!["crate::Baz"], "Baz"));
    f.append(atom(
        vec![],
        "fn do_something(&mut self) {\n    self.bar_capability();\n    self.baz_capability();\n}",
    ));
    assert_eq!(
        f.body(80),
        "trait Foo: Bar + Baz {\n    fn do_something(&mut self) {\n        self.bar_capability();\n        self.baz_capability();\n    }\n}"
    );
}

#[test]
fn test_associated_types() {
    let mut f = TraitFragment::new("Foo".to_owned());
    f.add_required_trait(atom(vec!["crate::Bar"], "Bar"));
    f.add_required_trait(atom(vec!["crate::Baz"], "Baz"));
    f.append(atom(
        vec![],
        "fn do_something(&mut self) -> Self::Tendies {\n    self.bar_capability();\n    self.baz_yolo_fd()\n}",
    ));
    let mut tendies = TypeDeclaration::new("Tendies".to_owned());
    tendies.add_required_trait(Fragment::Type(TypeFragment::new("GME".to_owned())));
    f.add_associated_type(tendies);
    assert_eq!(
        f.body(80),
        "trait Foo: Bar + Baz {\n    type Tendies: GME;\n\n    fn do_something(&mut self) -> Self::Tendies {\n        self.bar_capability();\n        self.baz_yolo_fd()\n    }\n}"
    );
}

#[test]
fn test_trait_imports() {
    let mut f = TraitFragment::new("Foo".to_owned());
    f.add_required_trait(atom(vec!["crate::Bar"], "Bar"));
    f.add_required_trait(atom(vec!["crate::Baz"], "Baz"));
    f.append(atom(vec!["crate::operators::plus"], ""));
    assert_eq!(
        f.imports(),
        vec!["crate::Bar", "crate::Baz", "crate::operators::plus"]
    );
}

#[test]
fn type_declaration_test_type() {
    let f = TypeDeclaration::new("Foo".to_owned());
    assert_eq!(f.imports(), Vec::<String>::new());
    assert_eq!(f.body(80), "type Foo;");
}

#[test]
fn test_documented_type() {
    let mut f = TypeDeclaration::new("Foo".to_owned());
    f.document("Is gooey.".to_owned());
    assert_eq!(f.imports(), Vec::<String>::new());
    assert_eq!(f.body(80), "/// Is gooey.\ntype Foo;");
}

#[test]
fn type_declaration_test_type_with_requirements() {
    let mut f = TypeDeclaration::new("Foo".to_owned());
    f.document("Is gooey.".to_owned());
    f.add_required_trait(atom(vec!["crate::Bar"], "Bar"));
    f.add_required_trait(atom(vec!["crate::Baz"], "Baz"));
    assert_eq!(
        f.imports(),
        vec!["crate::Bar".to_owned(), "crate::Baz".to_owned()]
    );
    assert_eq!(f.body(80), "/// Is gooey.\ntype Foo: Bar + Baz;");
}

#[test]
fn type_specification_test_type() {
    let f = TypeFragment::new("Foo".to_owned());
    assert_eq!(f.imports(), Vec::<String>::new());
    assert_eq!(f.body(80), "Foo");
}

#[test]
fn type_specification_test_type_with_requirements() {
    let mut f = TypeFragment::new("Foo".to_owned());
    f.add_required_trait(atom(vec!["crate::Bar"], "Bar"));
    f.add_required_trait(atom(vec!["crate::Baz"], "Baz"));
    assert_eq!(
        f.imports(),
        vec!["crate::Bar".to_owned(), "crate::Baz".to_owned()]
    );
    assert_eq!(f.body(80), "Foo: Bar + Baz");
}
