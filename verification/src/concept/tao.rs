//! The template for the struct of every concept.
use vstd::prelude::*;
use super::util::{add_assert, add_assert_frags, assert_view, kb_test_view, kb_test_function, plain};
use crate::construct::block_sep;
use crate::file::{FileFragment, FileV};
use crate::fragment::{
    AppendedFragment, AppendedV, AtomicFragment, AtomicV, Fragment, FragmentV, ImplV,
    ImplementationFragment, ModuleV, StructConfig, StructV, VecFragment,
};
use crate::imports::import_name;
use crate::layout::{imports_all, imports_of, lemma_imports_all_push};
use crate::text::strings_view;

verus! {

/// Templating config values for all concepts.
pub struct TaoConfig {
    /// Extra import of the main file.
    pub imports: Option<String>,
    /// Struct representing the concept itself.
    pub this: StructConfig,
    /// Name of the concept.
    pub internal_name: String,
    /// The form representing the concept.
    pub form: StructConfig,
    /// Name of the parent struct.
    pub parent_name: String,
    /// Import path for the parent struct.
    pub parent_import: String,
    /// The archetype used to represent the meta-object for this struct.
    pub archetype: StructConfig,
    /// Name of the archetype of this concept.
    pub archetype_name: String,
    /// Attributes this concept has.
    pub all_attributes: Vec<String>,
    /// Imports for the attributes this concept has.
    pub all_attribute_imports: Vec<String>,
    /// Attributes this concept introduced.
    pub introduced_attributes: Vec<String>,
    /// Imports for the attributes this concept introduced.
    pub introduced_attribute_imports: Vec<String>,
    /// Rustdoc for the struct.
    pub doc: String,
    /// ID of the concept.
    pub id: String,
}

impl Default for TaoConfig {
    /// A config for a concept named `dummy` with ID 1 that descends directly from `Tao`.
    fn default() -> (res: Self)
        ensures
            crate::fragment::opt_view(res.imports) == Some("zamm_yin::tao::YIN_MAX_ID"@),
            res.this@ == (StructV { name: Seq::empty(), import: Seq::empty() }),
            res.internal_name@ == "dummy"@,
            res.form@ == (StructV { name: Seq::empty(), import: Seq::empty() }),
            res.parent_name@ == "Tao"@,
            res.parent_import@ == "tao::Tao"@,
            res.archetype@ == (StructV {
                name: import_name("crate::tao::archetype::Archetype"@),
                import: "crate::tao::archetype::Archetype"@,
            }),
            res.archetype_name@ == "Archetype"@,
            res.all_attributes@.len() == 0,
            res.all_attribute_imports@.len() == 0,
            res.introduced_attributes@.len() == 0,
            res.introduced_attribute_imports@.len() == 0,
            res.doc@ == ""@,
            res.id@ == "1"@,
    {
        TaoConfig {
            imports: Some("zamm_yin::tao::YIN_MAX_ID".to_owned()),
            this: StructConfig::empty(),
            internal_name: "dummy".to_owned(),
            form: StructConfig::empty(),
            parent_name: "Tao".to_owned(),
            parent_import: "tao::Tao".to_owned(),
            archetype: StructConfig::new("crate::tao::archetype::Archetype".to_owned()),
            archetype_name: "Archetype".to_owned(),
            all_attributes: Vec::new(),
            all_attribute_imports: Vec::new(),
            introduced_attributes: Vec::new(),
            introduced_attribute_imports: Vec::new(),
            doc: "".to_owned(),
            id: "1".to_owned(),
        }
    }
}

/// The code of the concept's struct and of its basic trait implementations.
pub open spec fn tao_text(cfg: TaoConfig) -> Seq<char> {
    cfg.doc@ + "\n#[derive(Copy, Clone, Hash, PartialEq, Eq, PartialOrd, Ord)]\npub struct "@ + cfg.this.name@ + " {\n    base: FinalNode,\n}\n\nimpl Debug for "@ + cfg.this.name@ + " {\n    fn fmt(&self, f: &mut Formatter) -> fmt::Result {\n        debug_wrapper(\""@ + cfg.this.name@ + "\", self, f)\n    }\n}\n\nimpl From<usize> for "@ + cfg.this.name@ + " {\n    fn from(id: usize) -> Self {\n        Self {\n            base: FinalNode::from(id),\n        }\n    }\n}\n\nimpl From<FinalNode> for "@ + cfg.this.name@ + " {\n    fn from(f: FinalNode) -> Self {\n        Self { base: f }\n    }\n}\n\nimpl<'a> TryFrom<&'a str> for "@ + cfg.this.name@ + " {\n    type Error = String;\n\n    fn try_from(name: &'a str) -> Result<Self, Self::Error> {\n        FinalNode::try_from(name).map(|f| Self { base: f })\n    }\n}\n\nimpl ArchetypeTrait for "@ + cfg.this.name@ + " {\n    type ArchetypeForm = "@ + cfg.archetype.name@ + ";\n    type Form = "@ + cfg.form.name@ + ";\n\n    const TYPE_ID: usize = "@ + cfg.id@ + ";\n    const TYPE_NAME: &'static str = \""@ + cfg.internal_name@ + "\";\n    const PARENT_TYPE_ID: usize = "@ + cfg.parent_name@ + "::TYPE_ID;\n}"@
}

/// The imports of the concept's struct.
pub open spec fn tao_imports(cfg: TaoConfig) -> Seq<Seq<char>> {
    seq![
        "std::convert::TryFrom"@,
        "std::fmt"@,
        "std::fmt::Debug"@,
        "std::fmt::Formatter"@,
        cfg.form.import@,
        cfg.parent_import@,
        "zamm_yin::tao::archetype::ArchetypeTrait"@,
        cfg.archetype.import@,
        "zamm_yin::node_wrappers::debug_wrapper"@,
        "zamm_yin::node_wrappers::FinalNode"@,
    ] + match cfg.imports {
        Some(i) => seq![i@],
        None => Seq::empty(),
    }
}

fn tao_text_of(cfg: &TaoConfig) -> (res: String)
    ensures
        res@ == tao_text(*cfg),
{
    let mut atom = String::new();
    atom.append(cfg.doc.as_str());
    atom.append("\n#[derive(Copy, Clone, Hash, PartialEq, Eq, PartialOrd, Ord)]\npub struct ");
    atom.append(cfg.this.name.as_str());
    atom.append(" {\n    base: FinalNode,\n}\n\nimpl Debug for ");
    atom.append(cfg.this.name.as_str());
    atom.append(" {\n    fn fmt(&self, f: &mut Formatter) -> fmt::Result {\n        debug_wrapper(\"");
    atom.append(cfg.this.name.as_str());
    atom.append("\", self, f)\n    }\n}\n\nimpl From<usize> for ");
    atom.append(cfg.this.name.as_str());
    atom.append(" {\n    fn from(id: usize) -> Self {\n        Self {\n            base: FinalNode::from(id),\n        }\n    }\n}\n\nimpl From<FinalNode> for ");
    atom.append(cfg.this.name.as_str());
    atom.append(" {\n    fn from(f: FinalNode) -> Self {\n        Self { base: f }\n    }\n}\n\nimpl<'a> TryFrom<&'a str> for ");
    atom.append(cfg.this.name.as_str());
    atom.append(" {\n    type Error = String;\n\n    fn try_from(name: &'a str) -> Result<Self, Self::Error> {\n        FinalNode::try_from(name).map(|f| Self { base: f })\n    }\n}\n\nimpl ArchetypeTrait for ");
    atom.append(cfg.this.name.as_str());
    atom.append(" {\n    type ArchetypeForm = ");
    atom.append(cfg.archetype.name.as_str());
    atom.append(";\n    type Form = ");
    atom.append(cfg.form.name.as_str());
    atom.append(";\n\n    const TYPE_ID: usize = ");
    atom.append(cfg.id.as_str());
    atom.append(";\n    const TYPE_NAME: &'static str = \"");
    atom.append(cfg.internal_name.as_str());
    atom.append("\";\n    const PARENT_TYPE_ID: usize = ");
    atom.append(cfg.parent_name.as_str());
    atom.append("::TYPE_ID;\n}");
    assert(atom@ =~= tao_text(*cfg));
    atom
}

/// Get the fragment of the concept's struct.
pub fn tao_fragment(cfg: &TaoConfig) -> (res: AtomicFragment)
    ensures
        res@ == (AtomicV { imports: tao_imports(*cfg), atom: tao_text(*cfg) }),
{
    let mut imports: Vec<String> = Vec::new();
    imports.push("std::convert::TryFrom".to_owned());
    imports.push("std::fmt".to_owned());
    imports.push("std::fmt::Debug".to_owned());
    imports.push("std::fmt::Formatter".to_owned());
    imports.push(cfg.form.import.clone());
    imports.push(cfg.parent_import.clone());
    imports.push("zamm_yin::tao::archetype::ArchetypeTrait".to_owned());
    imports.push(cfg.archetype.import.clone());
    imports.push("zamm_yin::node_wrappers::debug_wrapper".to_owned());
    imports.push("zamm_yin::node_wrappers::FinalNode".to_owned());
    match &cfg.imports {
        Some(i) => imports.push(i.clone()),
        None => {},
    }
    assert(strings_view(imports@) =~= tao_imports(*cfg));
    AtomicFragment::with_imports(imports, tao_text_of(cfg))
}

/// Code that creates a concept and names it `A`.
pub open spec fn from_name_text(cfg: TaoConfig) -> Seq<char> {
    "let mut concept = "@ + cfg.this.name@ + "::new();\nconcept.set_internal_name(\"A\");"@
}

/// The tests that a concept can be created from its ID and dereferenced.
pub open spec fn tao_tests_text(cfg: TaoConfig) -> Seq<char> {
    "#[test]\nfn from_node_id() {\n    initialize_kb();\n    let concept = "@ + cfg.this.name@ + "::new();\n    let concept_copy = "@ + cfg.this.name@ + "::from(concept.id());\n    assert_eq!(concept.id(), concept_copy.id());\n}\n\n#[test]\nfn test_wrapper_implemented() {\n    initialize_kb();\n    let concept = "@ + cfg.this.name@ + "::new();\n    assert_eq!(concept.deref(), &FinalNode::from(concept.id()));\n}"@
}

/// The imports of the concept's tests.
pub open spec fn tao_test_imports(cfg: TaoConfig) -> Seq<Seq<char>> {
    seq![
        "std::rc::Rc"@,
        "zamm_yin::node_wrappers::CommonNodeTrait"@,
        "zamm_yin::tao::archetype::ArchetypeFormTrait"@,
    ] + strings_view(cfg.all_attribute_imports@) + strings_view(cfg.introduced_attribute_imports@)
}

/// A `vec!` literal of the given names.
pub open spec fn names_vec(names: Seq<String>) -> FragmentV {
    FragmentV::Vector(names.map_values(|n: String| plain(n@)))
}

/// The test that the concept's archetype has the right ID and name.
pub open spec fn check_type_created_view(cfg: TaoConfig) -> FragmentV {
    let name = cfg.this.name@;
    FragmentV::Function(
        kb_test_view(
            "check_type_created"@,
            seq![
                assert_view(name + "::archetype().id()"@, name + "::TYPE_ID"@),
                assert_view(
                    name + "::archetype().internal_name()"@,
                    "Some(Rc::from("@ + name + "::TYPE_NAME))"@,
                ),
            ],
        ),
    )
}

/// The test that the concept can be looked up by name.
pub open spec fn from_name_view(cfg: TaoConfig) -> FragmentV {
    let name = cfg.this.name@;
    FragmentV::Function(
        kb_test_view(
            "from_name"@,
            seq![
                plain(from_name_text(cfg)),
                assert_view(name + "::try_from(\"A\").map(|c| c.id())"@, "Ok(concept.id())"@),
                plain("assert!("@ + name + "::try_from(\"B\").is_err());"@),
            ],
        ),
    )
}

/// The test that the concept's archetype has the right attributes.
pub open spec fn check_type_attributes_view(cfg: TaoConfig) -> FragmentV {
    let name = cfg.this.name@;
    FragmentV::Function(
        kb_test_view(
            "check_type_attributes"@,
            seq![
                FragmentV::Assert(
                    Box::new(plain(name + "::archetype().added_attributes()"@)),
                    Box::new(names_vec(cfg.introduced_attributes@)),
                ),
                FragmentV::Assert(
                    Box::new(plain(name + "::archetype().attributes()"@)),
                    Box::new(names_vec(cfg.all_attributes@)),
                ),
            ],
        ),
    )
}

/// The tests of a concept's struct.
pub open spec fn tao_test_view(cfg: TaoConfig) -> AppendedV {
    AppendedV {
        items: seq![
            check_type_created_view(cfg),
            from_name_view(cfg),
            check_type_attributes_view(cfg),
            FragmentV::Atomic(AtomicV { imports: tao_test_imports(cfg), atom: tao_tests_text(cfg) }),
        ],
        sep: block_sep(),
    }
}

/// A concept's tests import `Rc` and every attribute import of the concept, introduced or
/// inherited.
pub proof fn lemma_tao_test_imports(cfg: TaoConfig)
    ensures
        imports_of(FragmentV::Appended(tao_test_view(cfg))).contains("std::rc::Rc"@),
        forall|k: int|
            0 <= k < cfg.all_attribute_imports@.len() ==> imports_of(
                FragmentV::Appended(tao_test_view(cfg)),
            ).contains(#[trigger] cfg.all_attribute_imports@[k]@),
        forall|k: int|
            0 <= k < cfg.introduced_attribute_imports@.len() ==> imports_of(
                FragmentV::Appended(tao_test_view(cfg)),
            ).contains(#[trigger] cfg.introduced_attribute_imports@[k]@),
{
    let items = tao_test_view(cfg).items;
    let last = FragmentV::Atomic(AtomicV { imports: tao_test_imports(cfg), atom: tao_tests_text(cfg) });
    assert(items =~= items.drop_last().push(last));
    lemma_imports_all_push(items.drop_last(), last);
    let before = imports_all(items.drop_last());
    let all = imports_all(items);
    let own = tao_test_imports(cfg);
    assert(all == before + own);
    let n = cfg.all_attribute_imports@.len();
    assert(own[0] == "std::rc::Rc"@);
    assert(all[before.len() as int] == own[0]);
    assert forall|k: int| 0 <= k < n implies all.contains(
        #[trigger] cfg.all_attribute_imports@[k]@,
    ) by {
        assert(own[3 + k] == strings_view(cfg.all_attribute_imports@)[k]);
        assert(all[before.len() + 3 + k] == own[3 + k]);
    }
    assert forall|k: int| 0 <= k < cfg.introduced_attribute_imports@.len() implies all.contains(
        #[trigger] cfg.introduced_attribute_imports@[k]@,
    ) by {
        assert(own[3 + n + k] == strings_view(cfg.introduced_attribute_imports@)[k]);
        assert(all[before.len() + 3 + n + k] == own[3 + n + k]);
    }
}

/// Append copies of all the strings of `more`.
pub fn push_all(v: &mut Vec<String>, more: &Vec<String>)
    ensures
        strings_view(final(v)@) == strings_view(old(v)@) + strings_view(more@),
{
    let ghost start = v@;
    let mut i: usize = 0;
    while i < more.len()
        invariant
            i <= more.len(),
            v@.len() == start.len() + i,
            forall|k: int| 0 <= k < start.len() ==> (#[trigger] v@[k]) == start[k],
            forall|k: int| 0 <= k < i ==> (#[trigger] v@[start.len() + k])@ == more@[k]@,
        decreases more.len() - i,
    {
        v.push(more[i].clone());
        i = i + 1;
    }
    proof {
        assert forall|k: int| 0 <= k < v@.len() implies (#[trigger] strings_view(v@)[k]) == (
        strings_view(start) + strings_view(more@))[k] by {
            if k >= start.len() {
                assert(v@[start.len() + (k - start.len())] == v@[k]);
            }
        }
        assert(strings_view(v@) =~= strings_view(start) + strings_view(more@));
    }
}

fn concat2(a: &str, b: &str) -> (res: String)
    ensures
        res@ == a@ + b@,
{
    let mut res = a.to_owned();
    res.append(b);
    res
}

fn concat3(a: &str, b: &str, c: &str) -> (res: String)
    ensures
        res@ == a@ + b@ + c@,
{
    let mut res = a.to_owned();
    res.append(b);
    res.append(c);
    res
}

fn names_vec_of(names: &Vec<String>) -> (res: VecFragment)
    ensures
        FragmentV::Vector(res@) == names_vec(names@),
{
    let mut v = VecFragment::new();
    let mut i: usize = 0;
    while i < names.len()
        invariant
            i <= names.len(),
            v@ == names@.take(i as int).map_values(|n: String| plain(n@)),
        decreases names.len() - i,
    {
        v.add_element_str(names[i].as_str());
        i = i + 1;
        assert(v@ =~= names@.take(i as int).map_values(|n: String| plain(n@)));
    }
    assert(names@.take(names.len() as int) == names@);
    v
}

fn check_type_created_test(cfg: &TaoConfig) -> (res: crate::fragment::FunctionFragment)
    ensures
        FragmentV::Function(res@) == check_type_created_view(*cfg),
{
    let name = cfg.this.name.as_str();
    let mut check_type_created = kb_test_function("check_type_created");
    add_assert(&mut check_type_created, concat2(name, "::archetype().id()"), concat2(name, "::TYPE_ID"));
    add_assert(
        &mut check_type_created,
        concat2(name, "::archetype().internal_name()"),
        concat3("Some(Rc::from(", name, "::TYPE_NAME))"),
    );
    proof {
        let av1 = assert_view(cfg.this.name@ + "::archetype().id()"@, cfg.this.name@ + "::TYPE_ID"@);
        let av2 = assert_view(
            cfg.this.name@ + "::archetype().internal_name()"@,
            "Some(Rc::from("@ + cfg.this.name@ + "::TYPE_NAME))"@,
        );
        assert(check_type_created@.content.items =~~= seq![super::util::kb_init_call(), av1, av2]);
        assert(seq![super::util::kb_init_call()] + seq![av1, av2] =~~= seq![
            super::util::kb_init_call(),
            av1,
            av2,
        ]);
    }
    assert(check_type_created@ =~~= kb_test_view(
        "check_type_created"@,
        seq![
            assert_view(cfg.this.name@ + "::archetype().id()"@, cfg.this.name@ + "::TYPE_ID"@),
            assert_view(
                cfg.this.name@ + "::archetype().internal_name()"@,
                "Some(Rc::from("@ + cfg.this.name@ + "::TYPE_NAME))"@,
            ),
        ],
    ));
    check_type_created
}

fn from_name_test(cfg: &TaoConfig) -> (res: crate::fragment::FunctionFragment)
    ensures
        FragmentV::Function(res@) == from_name_view(*cfg),
{
    let name = cfg.this.name.as_str();
    let mut from_name = kb_test_function("from_name");
    let from_name_code = {
        let mut code = "let mut concept = ".to_owned();
        code.append(cfg.this.name.as_str());
        code.append("::new();\nconcept.set_internal_name(\"A\");");
        assert(code@ =~= from_name_text(*cfg));
        code
    };
    from_name.append(Fragment::Atomic(AtomicFragment::new(from_name_code)));
    add_assert(
        &mut from_name,
        concat2(name, "::try_from(\"A\").map(|c| c.id())"),
        "Ok(concept.id())".to_owned(),
    );
    from_name.append(
        Fragment::Atomic(AtomicFragment::new(concat3("assert!(", name, "::try_from(\"B\").is_err());"))),
    );
    proof {
        let p1 = plain(from_name_text(*cfg));
        let av1 = assert_view(
            cfg.this.name@ + "::try_from(\"A\").map(|c| c.id())"@,
            "Ok(concept.id())"@,
        );
        let p2 = plain("assert!("@ + cfg.this.name@ + "::try_from(\"B\").is_err());"@);
        assert(from_name@.content.items =~~= seq![super::util::kb_init_call(), p1, av1, p2]);
        assert(seq![super::util::kb_init_call()] + seq![p1, av1, p2] =~~= seq![
            super::util::kb_init_call(),
            p1,
            av1,
            p2,
        ]);
    }
    assert(from_name@ =~~= kb_test_view(
        "from_name"@,
        seq![
            plain(from_name_text(*cfg)),
            assert_view(
                cfg.this.name@ + "::try_from(\"A\").map(|c| c.id())"@,
                "Ok(concept.id())"@,
            ),
            plain("assert!("@ + cfg.this.name@ + "::try_from(\"B\").is_err());"@),
        ],
    ));
    from_name
}

fn check_type_attributes_test(cfg: &TaoConfig) -> (res: crate::fragment::FunctionFragment)
    ensures
        FragmentV::Function(res@) == check_type_attributes_view(*cfg),
{
    let name = cfg.this.name.as_str();
    let mut check_type_attributes = kb_test_function("check_type_attributes");
    let introduced = names_vec_of(&cfg.introduced_attributes);
    add_assert_frags(
        &mut check_type_attributes,
        Fragment::Atomic(AtomicFragment::new(concat2(name, "::archetype().added_attributes()"))),
        Fragment::Vector(introduced),
    );
    let all = names_vec_of(&cfg.all_attributes);
    add_assert_frags(
        &mut check_type_attributes,
        Fragment::Atomic(AtomicFragment::new(concat2(name, "::archetype().attributes()"))),
        Fragment::Vector(all),
    );
    proof {
        let a1 = FragmentV::Assert(
            Box::new(plain(cfg.this.name@ + "::archetype().added_attributes()"@)),
            Box::new(names_vec(cfg.introduced_attributes@)),
        );
        let a2 = FragmentV::Assert(
            Box::new(plain(cfg.this.name@ + "::archetype().attributes()"@)),
            Box::new(names_vec(cfg.all_attributes@)),
        );
        assert(check_type_attributes@.content.items =~~= seq![super::util::kb_init_call(), a1, a2]);
        assert(seq![super::util::kb_init_call()] + seq![a1, a2] =~~= seq![
            super::util::kb_init_call(),
            a1,
            a2,
        ]);
    }
    assert(check_type_attributes@ =~~= kb_test_view(
        "check_type_attributes"@,
        seq![
            FragmentV::Assert(
                Box::new(plain(cfg.this.name@ + "::archetype().added_attributes()"@)),
                Box::new(names_vec(cfg.introduced_attributes@)),
            ),
            FragmentV::Assert(
                Box::new(plain(cfg.this.name@ + "::archetype().attributes()"@)),
                Box::new(names_vec(cfg.all_attributes@)),
            ),
        ],
    ));
    check_type_attributes
}

/// Get the fragment of the concept's tests.
pub fn tao_test_fragment(cfg: &TaoConfig) -> (res: AppendedFragment)
    ensures
        res@ == tao_test_view(*cfg),
{
    let name = cfg.this.name.as_str();
    let mut imports: Vec<String> = Vec::new();
    imports.push("std::rc::Rc".to_owned());
    imports.push("zamm_yin::node_wrappers::CommonNodeTrait".to_owned());
    imports.push("zamm_yin::tao::archetype::ArchetypeFormTrait".to_owned());
    push_all(&mut imports, &cfg.all_attribute_imports);
    push_all(&mut imports, &cfg.introduced_attribute_imports);
    assert(strings_view(imports@) =~= tao_test_imports(*cfg));

    let mut test_frag = AppendedFragment::new();
    test_frag.append(Fragment::Function(check_type_created_test(cfg)));
    test_frag.append(Fragment::Function(from_name_test(cfg)));
    test_frag.append(Fragment::Function(check_type_attributes_test(cfg)));

    let tests_code = {
        let mut code = "#[test]\nfn from_node_id() {\n    initialize_kb();\n    let concept = ".to_owned();
        code.append(cfg.this.name.as_str());
        code.append("::new();\n    let concept_copy = ");
        code.append(cfg.this.name.as_str());
        code.append("::from(concept.id());\n    assert_eq!(concept.id(), concept_copy.id());\n}\n\n#[test]\nfn test_wrapper_implemented() {\n    initialize_kb();\n    let concept = ");
        code.append(cfg.this.name.as_str());
        code.append("::new();\n    assert_eq!(concept.deref(), &FinalNode::from(concept.id()));\n}");
        assert(code@ =~= tao_tests_text(*cfg));
        code
    };
    test_frag.append(Fragment::Atomic(AtomicFragment::with_imports(imports, tests_code)));
    assert(test_frag@.items =~~= seq![
        check_type_created_view(*cfg),
        from_name_view(*cfg),
        check_type_attributes_view(*cfg),
        FragmentV::Atomic(AtomicV { imports: tao_test_imports(*cfg), atom: tao_tests_text(*cfg) }),
    ]);
    assert(test_frag@ =~~= tao_test_view(*cfg));
    test_frag
}

/// The configuration of a trait from the standard library or Yin, named by its import path.
pub open spec fn trait_struct(import: Seq<char>) -> StructV {
    StructV { name: import_name(import), import: import }
}

/// The content of an `impl` block with the given items.
pub open spec fn impl_items(items: Seq<FragmentV>) -> AppendedV {
    AppendedV { items: items, sep: block_sep() }
}

/// An implementation of a trait for the concept's struct, in the struct's file.
pub open spec fn trait_impl_view(trait_import: Seq<char>, this: StructV, items: Seq<FragmentV>) -> ImplV {
    ImplV {
        lifetimes: Seq::empty(),
        trait_cfg: Some(trait_struct(trait_import)),
        struct_cfg: this,
        same_file_as_trait: false,
        same_file_as_struct: true,
        declaration: crate::fragment::ItemDeclaration::empty_view(),
        content: impl_items(items),
        body_is_content: true,
    }
}

/// The `Deref` implementation of the concept's struct.
pub open spec fn deref_view(cfg: TaoConfig) -> ImplV {
    trait_impl_view(
        "std::ops::Deref"@,
        cfg.this@,
        seq![
            FragmentV::Atomic(
                AtomicV {
                    imports: seq!["zamm_yin::node_wrappers::FinalNode"@],
                    atom: "type Target = FinalNode;"@,
                },
            ),
            plain("fn deref(&self) -> &Self::Target {\n    &self.base\n}"@),
        ],
    )
}

/// The `DerefMut` implementation of the concept's struct.
pub open spec fn deref_mut_view(cfg: TaoConfig) -> ImplV {
    trait_impl_view(
        "std::ops::DerefMut"@,
        cfg.this@,
        seq![plain("fn deref_mut(&mut self) -> &mut Self::Target {\n    &mut self.base\n}"@)],
    )
}

/// An atomic fragment with one import.
pub fn atom_with_import(import: &str, atom: &str) -> (res: AtomicFragment)
    ensures
        res@ == (AtomicV { imports: seq![import@], atom: atom@ }),
{
    let mut imports: Vec<String> = Vec::new();
    imports.push(import.to_owned());
    let res = AtomicFragment::with_imports(imports, atom.to_owned());
    assert(res@.imports =~= seq![import@]);
    res
}

/// Get the `Deref` implementation of the concept's struct.
pub fn deref_fragment(cfg: &TaoConfig) -> (res: ImplementationFragment)
    ensures
        res@ == deref_view(*cfg),
{
    let mut implementation = ImplementationFragment::new_trait_impl(
        StructConfig::new("std::ops::Deref".to_owned()),
        cfg.this.duplicate(),
    );
    implementation.append(
        Fragment::Atomic(atom_with_import("zamm_yin::node_wrappers::FinalNode", "type Target = FinalNode;")),
    );
    implementation.append(
        Fragment::Atomic(
            AtomicFragment::new("fn deref(&self) -> &Self::Target {\n    &self.base\n}".to_owned()),
        ),
    );
    implementation.mark_same_file_as_struct();
    assert(implementation@.content.items =~~= seq![
        FragmentV::Atomic(
            AtomicV {
                imports: seq!["zamm_yin::node_wrappers::FinalNode"@],
                atom: "type Target = FinalNode;"@,
            },
        ),
        plain("fn deref(&self) -> &Self::Target {\n    &self.base\n}"@),
    ]);
    assert(implementation@ =~~= deref_view(*cfg));
    implementation
}

/// Get the `DerefMut` implementation of the concept's struct.
pub fn deref_mut_fragment(cfg: &TaoConfig) -> (res: ImplementationFragment)
    ensures
        res@ == deref_mut_view(*cfg),
{
    let mut implementation = ImplementationFragment::new_trait_impl(
        StructConfig::new("std::ops::DerefMut".to_owned()),
        cfg.this.duplicate(),
    );
    implementation.append(
        Fragment::Atomic(
            AtomicFragment::new(
                "fn deref_mut(&mut self) -> &mut Self::Target {\n    &mut self.base\n}".to_owned(),
            ),
        ),
    );
    implementation.mark_same_file_as_struct();
    assert(implementation@ =~~= deref_mut_view(*cfg));
    implementation
}

/// The test module of a new file, holding the given tests.
pub open spec fn tests_module(tests: Seq<FragmentV>) -> ModuleV {
    ModuleV {
        content: AppendedV { items: tests, sep: block_sep() },
        test: true,
        ..crate::fragment::ModuleFragment::fresh_view(Some("tests"@))
    }
}

/// A file with the given contents and tests, excluding its own import.
pub open spec fn concept_file_view(self_import: Seq<char>, contents: Seq<FragmentV>, tests: Seq<FragmentV>) -> FileV {
    FileV {
        preamble: None,
        contents: AppendedV { items: contents, sep: block_sep() },
        tests: tests_module(tests),
        self_import: Some(self_import),
        current_crate: None,
    }
}

/// The file of a concept's struct.
pub open spec fn tao_file_view(cfg: TaoConfig) -> FileV {
    concept_file_view(
        cfg.this.import@,
        seq![
            FragmentV::Atomic(AtomicV { imports: tao_imports(cfg), atom: tao_text(cfg) }),
            FragmentV::Implementation(deref_view(cfg)),
            FragmentV::Implementation(deref_mut_view(cfg)),
        ],
        seq![FragmentV::Appended(tao_test_view(cfg))],
    )
}

/// Returns the file of a concept's struct, which may be appended to further.
pub fn tao_file_fragment(cfg: &TaoConfig) -> (res: FileFragment)
    ensures
        res@ == tao_file_view(*cfg),
{
    let mut file = FileFragment::new();
    file.set_self_import(cfg.this.import.clone());
    file.append(Fragment::Atomic(tao_fragment(cfg)));
    file.append(Fragment::Implementation(deref_fragment(cfg)));
    file.append(Fragment::Implementation(deref_mut_fragment(cfg)));
    file.append_test(Fragment::Appended(tao_test_fragment(cfg)));
    assert(file@.contents.items =~~= seq![
        FragmentV::Atomic(AtomicV { imports: tao_imports(*cfg), atom: tao_text(*cfg) }),
        FragmentV::Implementation(deref_view(*cfg)),
        FragmentV::Implementation(deref_mut_view(*cfg)),
    ]);
    assert(file@.tests.content.items =~~= seq![FragmentV::Appended(tao_test_view(*cfg))]);
    assert(file@ =~~= tao_file_view(*cfg));
    file
}

} // verus!
