use zamm_yang::concept::wrapper::{yin_0_2_x, WrapperConfig};
use zamm_yang::fragment::{
    AppendedFragment, AtomicFragment, Fragment, FunctionCallFragment, ImplementationFragment,
    ItemDeclaration, ModuleFragment, StructConfig, TraitFragment, TypeFragment,
};
use zamm_yang::imports::re_exports_as_str;

#[test]
fn string_arguments_of_calls() {
    let mut f = FunctionCallFragment::new(AtomicFragment::new("foo".to_owned()));
    f.add_argument_str("1");
    f.add_argument_str("\"two\"");
    assert_eq!(f.body(80), "foo(1, \"two\");");
    assert_eq!(f.imports(), Vec::<String>::new());
}

#[test]
fn declarations_can_change_their_definition() {
    let mut d = ItemDeclaration::new(Fragment::Atomic(AtomicFragment::new("const A: u8 = 1".to_owned())));
    d.set_definition(Fragment::Atomic(AtomicFragment::new("const B: u8 = 2".to_owned())));
    assert_eq!(d.body(80), "const B: u8 = 2;");
}

#[test]
fn types_can_be_imported() {
    let mut t = TypeFragment::new("Rc<u8>".to_owned());
    t.set_import("std::rc::Rc".to_owned());
    assert_eq!(t.imports(), vec!["std::rc::Rc".to_owned()]);
    assert_eq!(t.body(80), "Rc<u8>");
}

#[test]
fn module_as_an_entire_file_has_no_mod_block() {
    let mut m = ModuleFragment::new("whole".to_owned());
    m.mark_as_entire_file();
    m.append(Fragment::Atomic(AtomicFragment::new("fn a() {}".to_owned())));
    assert_eq!(m.body(80), "fn a() {}\n");
}

#[test]
fn re_exports_are_grouped_and_public() {
    assert_eq!(
        re_exports_as_str(&["a::B", "a::c", "d::E"]),
        "pub use a::{c, B};\npub use d::E;"
    );
}

#[test]
fn wrapper_accessors_of_each_yin_version() {
    let newer = yin_0_2_x();
    assert_eq!(newer.deref, "deref");
    assert_eq!(newer.deref_mut, "deref_mut");
    let older = WrapperConfig::default();
    assert_eq!(older.deref, "essence");
    assert_eq!(older.deref_mut, "essence_mut");
}

#[test]
fn default_fragments() {
    let mut a = AppendedFragment::default();
    a.append(Fragment::Atomic(AtomicFragment::new("a".to_owned())));
    a.append(Fragment::Atomic(AtomicFragment::default()));
    a.append(Fragment::Atomic(AtomicFragment::new("b".to_owned())));
    assert_eq!(a.body(80), "a\n\nb");
    let s = StructConfig::default();
    assert_eq!(s.name, "");
    assert_eq!(s.import, "");
    assert_eq!(
        ImplementationFragment::default().body(80),
        ImplementationFragment::new_struct_impl(StructConfig::default()).body(80)
    );
    assert_eq!(
        TraitFragment::default().body(80),
        TraitFragment::new(String::new()).body(80)
    );
    assert_eq!(ItemDeclaration::default().body(80), ItemDeclaration::new(Fragment::Atomic(AtomicFragment::default())).body(80));
}

#[test]
fn kb_tests_are_added_and_stay_shared() {
    use_new_kb_test();
}

fn use_new_kb_test() {
    let mut tests = AppendedFragment::default();
    {
        let t = zamm_yang::concept::util::new_kb_test(&mut tests, "my_test");
        zamm_yang::concept::util::add_assert(t, "1".to_owned(), "1".to_owned());
    }
    assert_eq!(tests.imports(), vec!["crate::tao::initialize_kb".to_owned()]);
    assert_eq!(
        tests.body(80),
        "#[test]\nfn my_test() {\n    initialize_kb();\n    assert_eq!(1, 1);\n}"
    );
}
