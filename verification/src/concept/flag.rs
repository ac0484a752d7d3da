//! The template for the getter and setter of a flag.
use vstd::prelude::*;
use super::util::{function_v, plain};
use crate::text::{contains_seq, starts_with};
use crate::file::{FileFragment, FileV};
use crate::fragment::{
    AppendedV, AtomicFragment, Fragment, FragmentV, FunctionFragment, FunctionV, ImplV,
    ImplementationFragment, ModuleV, SelfReference, StructConfig,
};

verus! {

/// Config values at the time of Flag getter/setter code generation.
pub struct FlagConfig {
    /// The public name to serve as a basis for the getter/setter function names.
    pub property_name: String,
    /// Whether the getters and setters are public: false inside a trait or a trait's `impl`,
    /// true inside a struct's own `impl`.
    pub public: bool,
    /// An explanation of what this property is, put behind different phrases for the setter
    /// and the getter.
    pub doc: String,
    /// Concept representing the flag.
    pub flag: StructConfig,
    /// Concept representing the owner of the flag.
    pub owner_type: StructConfig,
    /// Whether the flag is passed on to the owner's children through the `Inherits` attribute.
    pub hereditary: bool,
}

impl Default for FlagConfig {
    /// An empty, private, hereditary flag.
    fn default() -> (res: Self)
        ensures
            res.property_name@.len() == 0,
            !res.public,
            res.doc@.len() == 0,
            res.flag.name@.len() == 0 && res.flag.import@.len() == 0,
            res.owner_type.name@.len() == 0 && res.owner_type.import@.len() == 0,
            res.hereditary,
    {
        FlagConfig {
            property_name: String::new(),
            public: false,
            doc: String::new(),
            flag: StructConfig::empty(),
            owner_type: StructConfig::empty(),
            hereditary: true,
        }
    }
}

/// The imports of the getter and setter of a flag.
pub open spec fn flag_imports(cfg: FlagConfig) -> Seq<Seq<char>> {
    seq![
        cfg.flag.import@,
        "zamm_yin::tao::archetype::ArchetypeTrait"@,
        "zamm_yin::tao::form::FormTrait"@,
        "zamm_yin::node_wrappers::BaseNodeTrait"@,
    ]
}

fn add_flag_imports(f: &mut FunctionFragment, cfg: &FlagConfig)
    ensures
        final(f)@ == (FunctionV { imports: old(f)@.imports + flag_imports(*cfg), ..old(f)@ }),
{
    f.add_import(cfg.flag.import.clone());
    f.add_import("zamm_yin::tao::archetype::ArchetypeTrait".to_owned());
    f.add_import("zamm_yin::tao::form::FormTrait".to_owned());
    f.add_import("zamm_yin::node_wrappers::BaseNodeTrait".to_owned());
    assert(f@.imports =~= old(f)@.imports + flag_imports(*cfg));
}

fn concat3(a: &str, b: &str, c: &str) -> (res: String)
    ensures
        res@ == a@ + b@ + c@,
{
    let mut res = a.to_owned();
    res.append(b);
    res.append(c);
    res
}

/// The setter of a flag.
pub open spec fn flag_setter_view(cfg: FlagConfig) -> FunctionV {
    function_v(
        "mark_"@ + cfg.property_name@,
        Some("Mark this as "@ + cfg.doc@),
        cfg.public,
        Seq::empty(),
        Some(SelfReference::Mutable),
        Seq::empty(),
        None,
        flag_imports(cfg),
        seq![plain("self.essence_mut().add_flag("@ + cfg.flag.name@ + "::TYPE_ID);"@)],
    )
}

/// Get the setter of a flag.
pub fn setter_fragment(cfg: &FlagConfig) -> (res: FunctionFragment)
    ensures
        res@ == flag_setter_view(*cfg),
{
    proof {
        reveal_strlit("");
    }
    let mut f = FunctionFragment::new(concat3("mark_", cfg.property_name.as_str(), ""));
    if cfg.public {
        f.mark_as_public();
    }
    f.document(concat3("Mark this as ", cfg.doc.as_str(), ""));
    f.set_self_reference(SelfReference::Mutable);
    add_flag_imports(&mut f, cfg);
    f.append(
        Fragment::Atomic(
            AtomicFragment::new(
                concat3("self.essence_mut().add_flag(", cfg.flag.name.as_str(), "::TYPE_ID);"),
            ),
        ),
    );
    proof {
        reveal_strlit("");
    }
    assert(f@ =~~= flag_setter_view(*cfg));
    f
}

/// What the getter of a flag checks: the flag on the node itself, or, for a flag that is not
/// inherited, on the node without what it inherits.
pub open spec fn flag_getter_text(cfg: FlagConfig) -> Seq<char> {
    if cfg.hereditary {
        "self.essence().has_flag("@ + cfg.flag.name@ + "::TYPE_ID)"@
    } else {
        "self.essence()\n    .inheritance_wrapper()\n    .base_wrapper()\n    .has_flag("@ + cfg.flag.name@ + "::TYPE_ID)"@
    }
}

/// The getter of a flag.
pub open spec fn flag_getter_view(cfg: FlagConfig) -> FunctionV {
    function_v(
        "is_"@ + cfg.property_name@,
        Some("Whether this is marked as "@ + cfg.doc@),
        cfg.public,
        Seq::empty(),
        Some(SelfReference::Immutable),
        Seq::empty(),
        Some("bool"@),
        flag_imports(cfg),
        seq![plain(flag_getter_text(cfg))],
    )
}

/// Get the getter of a flag.
pub fn getter_fragment(cfg: &FlagConfig) -> (res: FunctionFragment)
    ensures
        res@ == flag_getter_view(*cfg),
{
    proof {
        reveal_strlit("");
    }
    let mut f = FunctionFragment::new(concat3("is_", cfg.property_name.as_str(), ""));
    if cfg.public {
        f.mark_as_public();
    }
    f.document(concat3("Whether this is marked as ", cfg.doc.as_str(), ""));
    f.set_self_reference(SelfReference::Immutable);
    f.set_return("bool".to_owned());
    add_flag_imports(&mut f, cfg);
    let code = if cfg.hereditary {
        concat3("self.essence().has_flag(", cfg.flag.name.as_str(), "::TYPE_ID)")
    } else {
        let mut code = "self.essence()\n    .inheritance_wrapper()\n    .base_wrapper()\n    .has_flag(".to_owned();
        code.append(cfg.flag.name.as_str());
        code.append("::TYPE_ID)");
        code
    };
    assert(code@ =~= flag_getter_text(*cfg));
    f.append(Fragment::Atomic(AtomicFragment::new(code)));
    proof {
        reveal_strlit("");
    }
    assert(f@ =~~= flag_getter_view(*cfg));
    f
}

/// The text of the one statement of a flag's getter.
pub open spec fn getter_statement(f: FunctionV) -> Seq<char> {
    f.content.items[0]->Atomic_0.atom
}

/// A flag's getter is one statement that asks the concept's node whether it has the flag, by
/// the flag's type ID. For a flag that is not hereditary it asks the node's base wrapper, under
/// its inheritance wrapper, so that a flag inherited from a parent type does not count.
pub proof fn lemma_flag_getter_checks(cfg: FlagConfig)
    ensures
        flag_getter_view(cfg).content.items.len() == 1,
        flag_getter_view(cfg).content.items[0] is Atomic,
        starts_with(getter_statement(flag_getter_view(cfg)), "self.essence()"@),
        ({
            let t = getter_statement(flag_getter_view(cfg));
            let check = "has_flag("@ + cfg.flag.name@ + "::TYPE_ID)"@;
            t.len() >= check.len() && t.subrange(t.len() - check.len(), t.len() as int) == check
        }),
        !cfg.hereditary ==> contains_seq(
            getter_statement(flag_getter_view(cfg)),
            ".inheritance_wrapper()"@,
        ),
        !cfg.hereditary ==> contains_seq(
            getter_statement(flag_getter_view(cfg)),
            ".base_wrapper()"@,
        ),
{
    let name = cfg.flag.name@;
    let t = getter_statement(flag_getter_view(cfg));
    assert(t == flag_getter_text(cfg));
    let check = "has_flag("@ + name + "::TYPE_ID)"@;
    reveal_strlit("self.essence().has_flag(");
    reveal_strlit("self.essence()\n    .inheritance_wrapper()\n    .base_wrapper()\n    .has_flag(");
    reveal_strlit("self.essence()");
    reveal_strlit("has_flag(");
    reveal_strlit(".inheritance_wrapper()");
    reveal_strlit(".base_wrapper()");
    reveal_strlit("::TYPE_ID)");
    if cfg.hereditary {
        let head = "self.essence().has_flag("@;
        assert(head =~= "self.essence()."@ + "has_flag("@) by {
            reveal_strlit("self.essence().");
        }
        assert(t =~= "self.essence()."@ + check);
        assert(t.subrange(0, 14) =~= "self.essence()"@);
        assert(t.subrange(t.len() - check.len(), t.len() as int) =~= check);
    } else {
        let head = "self.essence()\n    .inheritance_wrapper()\n    .base_wrapper()\n    ."@;
        reveal_strlit("self.essence()\n    .inheritance_wrapper()\n    .base_wrapper()\n    .");
        assert(t =~= head + check);
        assert(t.subrange(0, 14) =~= "self.essence()"@);
        assert(t.subrange(t.len() - check.len(), t.len() as int) =~= check);
        let iw = ".inheritance_wrapper()"@;
        let bw = ".base_wrapper()"@;
        let i: int = 19;
        let j: int = 46;
        assert(t.subrange(i, i + iw.len()) =~= iw);
        assert(t.subrange(j, j + bw.len()) =~= bw);
    }
}

/// Whether a flag is hereditary changes what its getter checks.
pub proof fn lemma_flag_getter_heredity_matters(a: FlagConfig, b: FlagConfig)
    requires
        a.flag.name@ == b.flag.name@,
        a.hereditary != b.hereditary,
    ensures
        getter_statement(flag_getter_view(a)) != getter_statement(flag_getter_view(b)),
{
    reveal_strlit("self.essence().has_flag(");
    reveal_strlit("self.essence()\n    .inheritance_wrapper()\n    .base_wrapper()\n    .has_flag(");
    assert(getter_statement(flag_getter_view(a)) == flag_getter_text(a));
    assert(getter_statement(flag_getter_view(b)) == flag_getter_text(b));
    assert(flag_getter_text(a).len() != flag_getter_text(b).len());
}

/// The body of the test that a flag can be set and read back.
pub open spec fn flag_test_text(cfg: FlagConfig) -> Seq<char> {
    "initialize_kb();\nlet mut new_instance = "@ + cfg.owner_type.name@ + "::new();\nassert!(!new_instance."@ + "is_"@ + cfg.property_name@ + "());\n\nnew_instance."@ + "mark_"@ + cfg.property_name@ + "();\nassert!(new_instance."@ + "is_"@ + cfg.property_name@ + "());\n"@
}

/// The test that a flag can be set and read back.
pub open spec fn flag_test_view(cfg: FlagConfig) -> FunctionV {
    function_v(
        "test_mark_and_check_"@ + cfg.property_name@,
        None,
        false,
        seq!["test"@],
        None,
        Seq::empty(),
        None,
        seq!["crate::tao::initialize_kb"@, cfg.owner_type.import@],
        seq![plain(flag_test_text(cfg))],
    )
}

/// Get the test that a flag can be set and read back.
pub fn test_fragment(cfg: &FlagConfig) -> (res: FunctionFragment)
    ensures
        res@ == flag_test_view(*cfg),
{
    proof {
        reveal_strlit("");
    }
    let mut f = FunctionFragment::new(concat3("test_mark_and_check_", cfg.property_name.as_str(), ""));
    f.mark_as_test();
    f.add_import("crate::tao::initialize_kb".to_owned());
    f.add_import(cfg.owner_type.import.clone());
    let mut code = "initialize_kb();\nlet mut new_instance = ".to_owned();
    code.append(cfg.owner_type.name.as_str());
    code.append("::new();\nassert!(!new_instance.");
    code.append("is_");
    code.append(cfg.property_name.as_str());
    code.append("());\n\nnew_instance.");
    code.append("mark_");
    code.append(cfg.property_name.as_str());
    code.append("();\nassert!(new_instance.");
    code.append("is_");
    code.append(cfg.property_name.as_str());
    code.append("());\n");
    assert(code@ =~= flag_test_text(*cfg));
    f.append(Fragment::Atomic(AtomicFragment::new(code)));
    proof {
        reveal_strlit("");
    }
    assert(f@.attributes =~= seq!["test"@]);
    assert(f@.imports =~= seq!["crate::tao::initialize_kb"@, cfg.owner_type.import@]);
    assert(f@.content.items =~~= seq![plain(flag_test_text(*cfg))]);
    assert(f@.name =~= "test_mark_and_check_"@ + cfg.property_name@);
    assert(f@ =~~= flag_test_view(*cfg));
    f
}

/// The negation in front of the inheritance check, for a flag that is not inherited.
pub open spec fn inheritance_check(cfg: FlagConfig) -> Seq<char> {
    if cfg.hereditary {
        ""@
    } else {
        "!"@
    }
}

/// The word that names the inheritance test of a flag.
pub open spec fn inheritance_word(hereditary: bool) -> Seq<char> {
    if hereditary {
        "inheritance"@
    } else {
        "non_inheritance"@
    }
}

/// The body of the test that a flag is inherited, or not, by the children of its owner.
pub open spec fn flag_inheritance_text(cfg: FlagConfig) -> Seq<char> {
    "initialize_kb();\nlet new_type = "@ + cfg.owner_type.name@ + "::archetype().individuate_as_archetype();\nlet new_instance = "@ + cfg.owner_type.name@ + "::from(new_type.individuate_as_form().id());\nassert!(!new_instance."@ + "is_"@ + cfg.property_name@ + "());\n\n"@ + cfg.owner_type.name@ + "::from(new_type.id())."@ + "mark_"@ + cfg.property_name@ + "();\nassert!("@ + inheritance_check(cfg) + "new_instance."@ + "is_"@ + cfg.property_name@ + "());\n"@
}

/// The test that a flag is inherited, or not, by the children of its owner.
pub open spec fn flag_inheritance_view(cfg: FlagConfig) -> FunctionV {
    function_v(
        "test_"@ + cfg.property_name@ + "_"@ + inheritance_word(cfg.hereditary),
        None,
        false,
        seq!["test"@],
        None,
        Seq::empty(),
        None,
        seq!["crate::tao::initialize_kb"@, cfg.owner_type.import@],
        seq![plain(flag_inheritance_text(cfg))],
    )
}

/// Get the test that a flag is inherited, or not, by the children of its owner.
pub fn test_inheritance_fragment(cfg: &FlagConfig) -> (res: FunctionFragment)
    ensures
        res@ == flag_inheritance_view(*cfg),
{
    let inheritance_name = if cfg.hereditary {
        "inheritance"
    } else {
        "non_inheritance"
    };
    let inheritance = if cfg.hereditary {
        "".to_owned()
    } else {
        "!".to_owned()
    };
    let mut name = concat3("test_", cfg.property_name.as_str(), "_");
    name.append(inheritance_name);
    assert(inheritance_name@ == inheritance_word(cfg.hereditary));
    assert(inheritance@ == inheritance_check(*cfg));
    let mut f = FunctionFragment::new(name);
    f.mark_as_test();
    f.add_import("crate::tao::initialize_kb".to_owned());
    f.add_import(cfg.owner_type.import.clone());
    let mut code = "initialize_kb();\nlet new_type = ".to_owned();
    code.append(cfg.owner_type.name.as_str());
    code.append("::archetype().individuate_as_archetype();\nlet new_instance = ");
    code.append(cfg.owner_type.name.as_str());
    code.append("::from(new_type.individuate_as_form().id());\nassert!(!new_instance.");
    code.append("is_");
    code.append(cfg.property_name.as_str());
    code.append("());\n\n");
    code.append(cfg.owner_type.name.as_str());
    code.append("::from(new_type.id()).");
    code.append("mark_");
    code.append(cfg.property_name.as_str());
    code.append("();\nassert!(");
    code.append(inheritance.as_str());
    code.append("new_instance.");
    code.append("is_");
    code.append(cfg.property_name.as_str());
    code.append("());\n");
    assert(code@ =~= flag_inheritance_text(*cfg));
    f.append(Fragment::Atomic(AtomicFragment::new(code)));
    assert(f@.attributes =~= seq!["test"@]);
    assert(f@.imports =~= seq!["crate::tao::initialize_kb"@, cfg.owner_type.import@]);
    assert(f@.content.items =~~= seq![plain(flag_inheritance_text(*cfg))]);
    assert(f@.name =~= "test_"@ + cfg.property_name@ + "_"@ + inheritance_word(cfg.hereditary));
    assert(f@ =~~= flag_inheritance_view(*cfg));
    f
}

/// Add the getter and setter of a flag to an implementation, and their tests to the file.
pub fn add_flag_to_impl(
    cfg: &FlagConfig,
    implementation: &mut ImplementationFragment,
    file: &mut FileFragment,
)
    ensures
        final(implementation)@ == (ImplV {
            content: AppendedV {
                items: old(implementation)@.content.items.push(
                    FragmentV::Function(flag_getter_view(*cfg)),
                ).push(FragmentV::Function(flag_setter_view(*cfg))),
                ..old(implementation)@.content
            },
            ..old(implementation)@
        }),
        final(file)@ == (FileV {
            tests: ModuleV {
                content: AppendedV {
                    items: old(file)@.tests.content.items.push(
                        FragmentV::Function(flag_test_view(*cfg)),
                    ).push(FragmentV::Function(flag_inheritance_view(*cfg))),
                    ..old(file)@.tests.content
                },
                ..old(file)@.tests
            },
            ..old(file)@
        }),
{
    implementation.append(Fragment::Function(getter_fragment(cfg)));
    implementation.append(Fragment::Function(setter_fragment(cfg)));
    file.append_test(Fragment::Function(test_fragment(cfg)));
    file.append_test(Fragment::Function(test_inheritance_fragment(cfg)));
}

} // verus!
