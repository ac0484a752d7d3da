//! Building blocks shared by the concept templates: test functions and assertions.
use vstd::prelude::*;
use crate::fragment::{
    lemma_frags_view_push, AppendedFragment, AppendedV, AtomicFragment, AtomicV, AssertFragment, CallV, Fragment, FragmentV,
    FunctionCallFragment, FunctionFragment, FunctionV,
};
use crate::layout::{imports_all, imports_of, lemma_imports_all_concat};

verus! {

/// An atomic fragment without imports.
pub open spec fn plain(s: Seq<char>) -> FragmentV {
    FragmentV::Atomic(AtomicV { imports: Seq::empty(), atom: s })
}

/// The call that initializes the knowledge base at the start of a test.
pub open spec fn kb_init_call() -> FragmentV {
    FragmentV::Call(
        CallV {
            call: AtomicV { imports: seq!["crate::tao::initialize_kb"@], atom: "initialize_kb"@ },
            args: Seq::empty(),
            is_macro: false,
        },
    )
}

/// A test function named `name` that initializes the knowledge base and then runs `statements`.
pub open spec fn kb_test_view(name: Seq<char>, statements: Seq<FragmentV>) -> FunctionV {
    FunctionV {
        name: name,
        doc: None,
        public: false,
        attributes: seq!["test"@],
        self_reference: None,
        args: Seq::empty(),
        return_type: None,
        imports: Seq::empty(),
        content: AppendedV { items: seq![kb_init_call()] + statements, sep: "\n"@ },
    }
}

/// A test made by `new_kb_test` needs the knowledge base's initializer, then whatever its
/// statements need.
pub proof fn lemma_kb_test_imports(name: Seq<char>, statements: Seq<FragmentV>)
    ensures
        imports_of(FragmentV::Function(kb_test_view(name, statements))) == seq![
            "crate::tao::initialize_kb"@,
        ] + imports_all(statements),
{
    let init = seq![kb_init_call()];
    assert(imports_all(Seq::<FragmentV>::empty()) == Seq::<Seq<char>>::empty());
    assert(imports_of(kb_init_call()) =~= seq!["crate::tao::initialize_kb"@]);
    assert(init.drop_last() =~= Seq::<FragmentV>::empty());
    assert(imports_all(init) =~= seq!["crate::tao::initialize_kb"@]);
    lemma_imports_all_concat(init, statements);
    assert(Seq::<Seq<char>>::empty() + imports_all(init + statements) =~= imports_all(init
        + statements));
}

/// An assertion between two plain pieces of code needs no import.
pub proof fn lemma_assert_view_imports(lhs: Seq<char>, rhs: Seq<char>)
    ensures
        imports_of(assert_view(lhs, rhs)) == Seq::<Seq<char>>::empty(),
{
    assert(imports_of(plain(lhs)) == Seq::<Seq<char>>::empty());
    assert(imports_of(plain(rhs)) == Seq::<Seq<char>>::empty());
    assert(Seq::<Seq<char>>::empty() + Seq::<Seq<char>>::empty() =~= Seq::<Seq<char>>::empty());
}

/// The assertion that two plain pieces of code are equal.
pub open spec fn assert_view(lhs: Seq<char>, rhs: Seq<char>) -> FragmentV {
    FragmentV::Assert(Box::new(plain(lhs)), Box::new(plain(rhs)))
}

/// A new test function that starts by initializing the knowledge base.
pub(crate) fn kb_test_function(name: &str) -> (res: FunctionFragment)
    ensures
        res@ == kb_test_view(name@, Seq::empty()),
{
    let mut imports: Vec<String> = Vec::new();
    imports.push("crate::tao::initialize_kb".to_owned());
    let call = AtomicFragment::with_imports(imports, "initialize_kb".to_owned());
    assert(call@.imports =~= seq!["crate::tao::initialize_kb"@]);
    let init_kb = FunctionCallFragment::new(call);
    let mut new_test = FunctionFragment::new(name.to_owned());
    new_test.mark_as_test();
    new_test.append(Fragment::Call(init_kb));
    assert(new_test@.attributes =~= seq!["test"@]);
    assert(new_test@.content.items =~~= seq![kb_init_call()] + Seq::<FragmentV>::empty());
    new_test
}

/// Adds a new test function, which starts by initializing the knowledge base, as the last of
/// the tests, and hands it back: statements added to it later show in the tests.
pub fn new_kb_test<'a>(test_frag: &'a mut AppendedFragment, name: &str) -> (res: &'a mut FunctionFragment)
    ensures
        res@ == kb_test_view(name@, Seq::empty()),
        final(test_frag)@ == (AppendedV {
            items: old(test_frag)@.items.push(FragmentV::Function(final(res)@)),
            ..old(test_frag)@
        }),
{
    let f = kb_test_function(name);
    let ghost before = test_frag.appendages@;
    test_frag.appendages.push(Fragment::Function(f));
    let k = test_frag.appendages.len() - 1;
    let ghost after_push = test_frag.appendages@;
    match &mut test_frag.appendages[k] {
        Fragment::Function(r) => {
            proof {
                assert(after_push.update(k as int, Fragment::Function(*final(r))) =~= before.push(
                    Fragment::Function(*final(r)),
                ));
                lemma_frags_view_push(before, Fragment::Function(*final(r)));
            }
            r
        },
        _ => unreached(),
    }
}

/// Append an assertion that two pieces of code are equal to a test function.
pub fn add_assert(test_function: &mut FunctionFragment, lhs: String, rhs: String)
    ensures
        final(test_function)@ == (FunctionV {
            content: AppendedV {
                items: old(test_function)@.content.items.push(assert_view(lhs@, rhs@)),
                ..old(test_function)@.content
            },
            ..old(test_function)@
        }),
{
    test_function.append(
        Fragment::Assert(
            AssertFragment::new_eq(
                Fragment::Atomic(AtomicFragment::new(lhs)),
                Fragment::Atomic(AtomicFragment::new(rhs)),
            ),
        ),
    );
}

/// Append an assertion that two code fragments are equal to a test function.
pub fn add_assert_frags(test_function: &mut FunctionFragment, lhs: Fragment, rhs: Fragment)
    ensures
        final(test_function)@ == (FunctionV {
            content: AppendedV {
                items: old(test_function)@.content.items.push(
                    FragmentV::Assert(Box::new(lhs@), Box::new(rhs@)),
                ),
                ..old(test_function)@.content
            },
            ..old(test_function)@
        }),
{
    test_function.append(Fragment::Assert(AssertFragment::new_eq(lhs, rhs)));
}

/// A function with the given parts and statements, the statements separated by line breaks.
pub open spec fn function_v(
    name: Seq<char>,
    doc: Option<Seq<char>>,
    public: bool,
    attributes: Seq<Seq<char>>,
    self_reference: Option<crate::fragment::SelfReference>,
    args: Seq<(Seq<char>, Seq<char>)>,
    return_type: Option<Seq<char>>,
    imports: Seq<Seq<char>>,
    statements: Seq<FragmentV>,
) -> FunctionV {
    FunctionV {
        name,
        doc,
        public,
        attributes,
        self_reference,
        args,
        return_type,
        imports,
        content: AppendedV { items: statements, sep: "\n"@ },
    }
}

} // verus!
