//! The template for the code that every attribute has.
use vstd::prelude::*;
use super::tao::TaoConfig;
use super::util::{
    add_assert, assert_view, kb_test_view, kb_test_function, lemma_assert_view_imports,
    lemma_kb_test_imports,
};
use crate::layout::{imports_all, imports_of, lemma_imports_all_push};
use crate::construct::block_sep;
use crate::file::{FileFragment, FileV};
use crate::fragment::{
    AppendedFragment, AppendedV, AtomicFragment, AtomicV, Fragment, FragmentV, ModuleV, StructConfig,
};
use crate::text::strings_view;

verus! {

/// Config values at the time of Attribute code generation.
pub struct AttributeFormatConfig {
    /// Regular concept config.
    pub tao_cfg: TaoConfig,
    /// Attribute's owner archetype.
    pub owner_type: StructConfig,
    /// Attribute's owner form.
    pub owner_form: StructConfig,
    /// Attribute's value archetype.
    pub value_type: StructConfig,
    /// Attribute's value form.
    pub value_form: StructConfig,
    /// Code to use for converting the owner archetype type into `Archetype`.
    pub owner_into_archetype: String,
    /// Code to use for converting the value archetype type into `Archetype`.
    pub value_into_archetype: String,
}

impl Default for AttributeFormatConfig {
    /// The default concept config, with empty owner and value types.
    fn default() -> (res: Self)
        ensures
            res.owner_type.name@.len() == 0,
            res.owner_form.name@.len() == 0,
            res.value_type.name@.len() == 0,
            res.value_form.name@.len() == 0,
            res.owner_into_archetype@.len() == 0,
            res.value_into_archetype@.len() == 0,
    {
        AttributeFormatConfig {
            tao_cfg: TaoConfig::default(),
            owner_type: StructConfig::empty(),
            owner_form: StructConfig::empty(),
            value_type: StructConfig::empty(),
            value_form: StructConfig::empty(),
            owner_into_archetype: String::new(),
            value_into_archetype: String::new(),
        }
    }
}

/// The `AttributeTrait` implementation of an attribute.
pub open spec fn attribute_text(cfg: AttributeFormatConfig) -> Seq<char> {
    "impl AttributeTrait for "@ + cfg.tao_cfg.this.name@ + " {\n    type OwnerForm = "@ + cfg.owner_form.name@ + ";\n    type ValueForm = "@ + cfg.value_form.name@ + ";\n}"@
}

/// The fragment of the `AttributeTrait` implementation.
pub open spec fn attribute_view(cfg: AttributeFormatConfig) -> AtomicV {
    AtomicV {
        imports: seq![
            "zamm_yin::tao::relation::attribute::AttributeTrait"@,
            cfg.owner_form.import@,
            cfg.value_form.import@,
        ],
        atom: attribute_text(cfg),
    }
}

/// Get the fragment of the `AttributeTrait` implementation.
pub fn attribute_fragment(cfg: &AttributeFormatConfig) -> (res: AtomicFragment)
    ensures
        res@ == attribute_view(*cfg),
{
    let mut code = "impl AttributeTrait for ".to_owned();
    code.append(cfg.tao_cfg.this.name.as_str());
    code.append(" {\n    type OwnerForm = ");
    code.append(cfg.owner_form.name.as_str());
    code.append(";\n    type ValueForm = ");
    code.append(cfg.value_form.name.as_str());
    code.append(";\n}");
    assert(code@ =~= attribute_text(*cfg));
    let mut imports: Vec<String> = Vec::new();
    imports.push("zamm_yin::tao::relation::attribute::AttributeTrait".to_owned());
    imports.push(cfg.owner_form.import.clone());
    imports.push(cfg.value_form.import.clone());
    let res = AtomicFragment::with_imports(imports, code);
    assert(res@.imports =~= attribute_view(*cfg).imports);
    res
}

/// The tests that an attribute's owner and value can be set and read back.
pub open spec fn attribute_tests_text(cfg: AttributeFormatConfig) -> Seq<char> {
    "#[test]\nfn get_owner() {\n    initialize_kb();\n    let mut instance = "@ + cfg.tao_cfg.this.name@ + "::new();\n    let owner_of_instance = "@ + cfg.owner_type.name@ + "::new();\n    instance.set_owner(&owner_of_instance);\n    assert_eq!(instance.owner(), Some(owner_of_instance));\n    assert_eq!(instance.value(), None);\n}\n\n#[test]\nfn get_value() {\n    initialize_kb();\n    let mut instance = "@ + cfg.tao_cfg.this.name@ + "::new();\n    let value_of_instance = "@ + cfg.value_type.name@ + "::new();\n    instance.set_value(&value_of_instance);\n    assert_eq!(instance.owner(), None);\n    assert_eq!(instance.value(), Some(value_of_instance));\n}"@
}

/// The imports of an attribute's tests; an owner or value type that is its own form is imported
/// already.
pub open spec fn attribute_test_imports(cfg: AttributeFormatConfig) -> Seq<Seq<char>> {
    seq![
        "zamm_yin::tao::archetype::ArchetypeFormTrait"@,
        "zamm_yin::tao::archetype::AttributeArchetypeFormTrait"@,
    ] + (if cfg.owner_type.name@ != cfg.owner_form.name@ {
        seq![cfg.owner_type.import@]
    } else {
        Seq::empty()
    }) + (if cfg.value_type.name@ != cfg.value_form.name@ {
        seq![cfg.value_type.import@]
    } else {
        Seq::empty()
    })
}

/// The test that an attribute's archetype has the right owner and value archetypes.
pub open spec fn attribute_constraints_view(cfg: AttributeFormatConfig) -> FragmentV {
    let name = cfg.tao_cfg.this.name@;
    FragmentV::Function(
        kb_test_view(
            "check_attribute_constraints"@,
            seq![
                assert_view(
                    name + "::archetype().owner_archetype()"@,
                    cfg.owner_type.name@ + "::archetype()"@ + cfg.owner_into_archetype@,
                ),
                assert_view(
                    name + "::archetype().value_archetype()"@,
                    cfg.value_type.name@ + "::archetype()"@ + cfg.value_into_archetype@,
                ),
            ],
        ),
    )
}

/// The tests of an attribute.
pub open spec fn attribute_test_view(cfg: AttributeFormatConfig) -> AppendedV {
    AppendedV {
        items: seq![
            attribute_constraints_view(cfg),
            FragmentV::Atomic(
                AtomicV { imports: attribute_test_imports(cfg), atom: attribute_tests_text(cfg) },
            ),
        ],
        sep: block_sep(),
    }
}

/// An attribute's tests need the knowledge base's initializer, the two archetype traits, and
/// the owner and value types where these are not their own forms.
pub proof fn lemma_attribute_test_imports(cfg: AttributeFormatConfig)
    ensures
        imports_of(FragmentV::Appended(attribute_test_view(cfg))) == seq![
            "crate::tao::initialize_kb"@,
        ] + attribute_test_imports(cfg),
{
    let name = cfg.tao_cfg.this.name@;
    let a1 = assert_view(
        name + "::archetype().owner_archetype()"@,
        cfg.owner_type.name@ + "::archetype()"@ + cfg.owner_into_archetype@,
    );
    let a2 = assert_view(
        name + "::archetype().value_archetype()"@,
        cfg.value_type.name@ + "::archetype()"@ + cfg.value_into_archetype@,
    );
    lemma_assert_view_imports(
        name + "::archetype().owner_archetype()"@,
        cfg.owner_type.name@ + "::archetype()"@ + cfg.owner_into_archetype@,
    );
    lemma_assert_view_imports(
        name + "::archetype().value_archetype()"@,
        cfg.value_type.name@ + "::archetype()"@ + cfg.value_into_archetype@,
    );
    let stmts = seq![a1, a2];
    lemma_imports_all_push(seq![a1], a2);
    lemma_imports_all_push(Seq::<FragmentV>::empty(), a1);
    assert(Seq::<FragmentV>::empty().push(a1) =~= seq![a1]);
    assert(seq![a1].push(a2) =~= stmts);
    assert(imports_all(stmts) =~= Seq::<Seq<char>>::empty());
    lemma_kb_test_imports("check_attribute_constraints"@, stmts);
    let constraints = attribute_constraints_view(cfg);
    let tests = FragmentV::Atomic(
        AtomicV { imports: attribute_test_imports(cfg), atom: attribute_tests_text(cfg) },
    );
    let items = attribute_test_view(cfg).items;
    assert(items =~= Seq::<FragmentV>::empty().push(constraints).push(tests));
    lemma_imports_all_push(Seq::<FragmentV>::empty(), constraints);
    lemma_imports_all_push(Seq::<FragmentV>::empty().push(constraints), tests);
    assert(imports_of(constraints) =~= seq!["crate::tao::initialize_kb"@]);
    assert(imports_all(items) =~= seq!["crate::tao::initialize_kb"@] + attribute_test_imports(cfg));
}

fn concat3(a: &str, b: &str, c: &str) -> (res: String)
    ensures
        res@ == a@ + b@ + c@,
{
    let mut res = a.to_owned();
    res.append(b);
    res.append(c);
    res
}

fn attribute_constraints_test(cfg: &AttributeFormatConfig) -> (res: crate::fragment::FunctionFragment)
    ensures
        FragmentV::Function(res@) == attribute_constraints_view(*cfg),
{
    let name = cfg.tao_cfg.this.name.as_str();
    let mut test = kb_test_function("check_attribute_constraints");
    let mut l1 = name.to_owned();
    l1.append("::archetype().owner_archetype()");
    add_assert(
        &mut test,
        l1,
        concat3(cfg.owner_type.name.as_str(), "::archetype()", cfg.owner_into_archetype.as_str()),
    );
    let mut l2 = name.to_owned();
    l2.append("::archetype().value_archetype()");
    add_assert(
        &mut test,
        l2,
        concat3(cfg.value_type.name.as_str(), "::archetype()", cfg.value_into_archetype.as_str()),
    );
    proof {
        let a1 = assert_view(
            cfg.tao_cfg.this.name@ + "::archetype().owner_archetype()"@,
            cfg.owner_type.name@ + "::archetype()"@ + cfg.owner_into_archetype@,
        );
        let a2 = assert_view(
            cfg.tao_cfg.this.name@ + "::archetype().value_archetype()"@,
            cfg.value_type.name@ + "::archetype()"@ + cfg.value_into_archetype@,
        );
        assert(test@.content.items =~~= seq![super::util::kb_init_call(), a1, a2]);
        assert(seq![super::util::kb_init_call()] + seq![a1, a2] =~~= seq![
            super::util::kb_init_call(),
            a1,
            a2,
        ]);
    }
    assert(FragmentV::Function(test@) =~~= attribute_constraints_view(*cfg));
    test
}

/// Get the fragment of an attribute's tests.
pub fn attribute_test_fragment(cfg: &AttributeFormatConfig) -> (res: AppendedFragment)
    ensures
        res@ == attribute_test_view(*cfg),
{
    let mut imports: Vec<String> = Vec::new();
    imports.push("zamm_yin::tao::archetype::ArchetypeFormTrait".to_owned());
    imports.push("zamm_yin::tao::archetype::AttributeArchetypeFormTrait".to_owned());
    if !(cfg.owner_type.name == cfg.owner_form.name) {
        imports.push(cfg.owner_type.import.clone());
    }
    if !(cfg.value_type.name == cfg.value_form.name) {
        imports.push(cfg.value_type.import.clone());
    }
    assert(strings_view(imports@) =~= attribute_test_imports(*cfg));
    let mut code = "#[test]\nfn get_owner() {\n    initialize_kb();\n    let mut instance = ".to_owned();
    code.append(cfg.tao_cfg.this.name.as_str());
    code.append("::new();\n    let owner_of_instance = ");
    code.append(cfg.owner_type.name.as_str());
    code.append("::new();\n    instance.set_owner(&owner_of_instance);\n    assert_eq!(instance.owner(), Some(owner_of_instance));\n    assert_eq!(instance.value(), None);\n}\n\n#[test]\nfn get_value() {\n    initialize_kb();\n    let mut instance = ");
    code.append(cfg.tao_cfg.this.name.as_str());
    code.append("::new();\n    let value_of_instance = ");
    code.append(cfg.value_type.name.as_str());
    code.append("::new();\n    instance.set_value(&value_of_instance);\n    assert_eq!(instance.owner(), None);\n    assert_eq!(instance.value(), Some(value_of_instance));\n}");
    assert(code@ =~= attribute_tests_text(*cfg));
    let mut test_frag = AppendedFragment::new();
    test_frag.append(Fragment::Function(attribute_constraints_test(cfg)));
    test_frag.append(Fragment::Atomic(AtomicFragment::with_imports(imports, code)));
    assert(test_frag@.items =~~= attribute_test_view(*cfg).items);
    assert(test_frag@ =~~= attribute_test_view(*cfg));
    test_frag
}

/// Add an attribute's fragments to its file.
pub fn add_attr_fragments(cfg: &AttributeFormatConfig, file: &mut FileFragment)
    ensures
        final(file)@ == (FileV {
            contents: AppendedV {
                items: old(file)@.contents.items.push(FragmentV::Atomic(attribute_view(*cfg))),
                ..old(file)@.contents
            },
            tests: ModuleV {
                content: AppendedV {
                    items: old(file)@.tests.content.items.push(
                        FragmentV::Appended(attribute_test_view(*cfg)),
                    ),
                    ..old(file)@.tests.content
                },
                ..old(file)@.tests
            },
            ..old(file)@
        }),
{
    file.append(Fragment::Atomic(attribute_fragment(cfg)));
    file.append_test(Fragment::Appended(attribute_test_fragment(cfg)));
}

} // verus!
