use zamm_yang::code_fragment::{Appendable, CodeFragment, ItemDeclarationAPI};
use zamm_yang::fragment::{AppendedFragment, AtomicFragment, Fragment, StructConfig};
use zamm_yang::fragment::{ImplementationFragment, ItemDeclaration, TraitFragment, TypeDeclaration};

fn render<T: CodeFragment>(f: &T) -> (String, Vec<String>) {
    (CodeFragment::body(f, 80), CodeFragment::imports(f))
}

fn fill<T: Appendable>(f: &mut T) {
    Appendable::append(f, Fragment::Atomic(AtomicFragment::new("second();".to_owned())));
    Appendable::prepend(f, Fragment::Atomic(AtomicFragment::new("first();".to_owned())));
}

#[test]
fn appended_fragments_through_the_traits() {
    let mut appended = AppendedFragment::new_with_separator("\n");
    assert!(Appendable::is_empty(&appended));
    fill(&mut appended);
    assert!(!Appendable::is_empty(&appended));
    assert_eq!(
        render(&appended),
        ("first();\nsecond();".to_owned(), Vec::<String>::new())
    );
}

#[test]
fn atomic_fragment_through_the_trait() {
    let atom = AtomicFragment {
        imports: vec!["std::rc::Rc".to_owned()],
        atom: "  Rc::new(1)  ".to_owned(),
    };
    assert_eq!(
        render(&atom),
        ("Rc::new(1)".to_owned(), vec!["std::rc::Rc".to_owned()])
    );
}

#[test]
fn trait_and_impl_blocks_accept_items() {
    let mut t = TraitFragment::new("Foo".to_owned());
    assert!(Appendable::is_empty(&t));
    fill(&mut t);
    assert!(!Appendable::is_empty(&t));
    let mut i = ImplementationFragment::new_struct_impl(StructConfig {
        name: "Bar".to_owned(),
        import: "crate::Bar".to_owned(),
    });
    fill(&mut i);
    assert_eq!(Appendable::is_empty(&i), false);
    assert_eq!(CodeFragment::body(&i, 80), i.body(80));
}

fn publish<T: ItemDeclarationAPI>(item: &mut T, doc: &str) {
    assert!(!ItemDeclarationAPI::is_public(item));
    ItemDeclarationAPI::mark_as_public(item);
    ItemDeclarationAPI::document(item, doc.to_owned());
    assert!(ItemDeclarationAPI::is_public(item));
}

#[test]
fn traits_are_declared_through_the_item_api() {
    let mut t = TraitFragment::new("Foo".to_owned());
    publish(&mut t, "A trait.");
    assert_eq!(CodeFragment::body(&t, 80), "/// A trait.\npub trait Foo {}");
}

#[test]
fn type_declarations_through_the_item_api() {
    let mut t = TypeDeclaration::new("Foo".to_owned());
    publish(&mut t, "A type.");
    ItemDeclarationAPI::add_attribute(&mut t, "allow(dead_code)".to_owned());
    assert_eq!(
        CodeFragment::body(&t, 80),
        "/// A type.\n#[allow(dead_code)]\npub type Foo;"
    );
}

#[test]
fn declarations_become_declare_only_and_back() {
    let mut d = ItemDeclaration::new(Fragment::Atomic(AtomicFragment::new("fn f()".to_owned())));
    ItemDeclarationAPI::mark_for_full_implementation(&mut d);
    assert_eq!(CodeFragment::body(&d, 80), "fn f() {}");
    ItemDeclarationAPI::mark_as_declare_only(&mut d);
    assert_eq!(CodeFragment::body(&d, 80), "fn f();");
    ItemDeclarationAPI::set_body(
        &mut d,
        Fragment::Atomic(AtomicFragment::new("todo!()".to_owned())),
    );
    assert_eq!(CodeFragment::body(&d, 80), "fn f() {\n    todo!()\n}");
}

#[test]
fn impl_blocks_through_the_item_api() {
    let mut i = ImplementationFragment::new_struct_impl(StructConfig {
        name: "Bar".to_owned(),
        import: "crate::Bar".to_owned(),
    });
    publish(&mut i, "An impl.");
    ItemDeclarationAPI::mark_for_full_implementation(&mut i);
    assert_eq!(CodeFragment::body(&i, 80), i.body(80));
}
