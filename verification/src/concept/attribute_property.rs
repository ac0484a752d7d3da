//! The template for the getter and setter of an attribute.
use vstd::prelude::*;
use super::util::{function_v, kb_init_call, kb_test_function, plain};
use crate::layout::{imports_all, imports_of, lemma_imports_all_push};
use crate::file::{FileFragment, FileV};
use crate::fragment::{
    AppendedV, AtomicFragment, AtomicV, CallV, Fragment, FragmentV, FunctionCallFragment,
    FunctionFragment, FunctionV, ImplV, ImplementationFragment, ModuleV, SelfReference,
    StructConfig,
};

verus! {

/// Config values at the time of Attribute getter/setter code generation.
pub struct AttributePropertyConfig {
    /// The public name to serve as a basis for the getter/setter function names.
    pub property_name: String,
    /// Whether the getters and setters are public: false inside a trait or a trait's `impl`,
    /// true inside a struct's own `impl`.
    pub public: bool,
    /// An explanation of what this property is, put behind different phrases for the setter
    /// and the getter.
    pub doc: String,
    /// Concept representing the attribute.
    pub attr: StructConfig,
    /// Concept representing the owner of the attribute.
    pub owner_type: StructConfig,
    /// Concept representing the value of the attribute.
    pub value_type: StructConfig,
    /// The Rust primitive that the value stands for, if any.
    pub rust_primitive: Option<String>,
    /// Dummy test value to set the primitive to.
    pub primitive_test_value: Option<String>,
    /// Whether the attribute is passed on to the owner's children through the `Inherits`
    /// attribute.
    pub hereditary: bool,
}

impl Default for AttributePropertyConfig {
    /// An empty, private, hereditary attribute of a concept value.
    fn default() -> (res: Self)
        ensures
            res.property_name@.len() == 0,
            !res.public,
            res.doc@.len() == 0,
            res.attr.name@.len() == 0 && res.attr.import@.len() == 0,
            res.owner_type.name@.len() == 0 && res.owner_type.import@.len() == 0,
            res.value_type.name@.len() == 0 && res.value_type.import@.len() == 0,
            res.rust_primitive is None,
            res.primitive_test_value is None,
            res.hereditary,
    {
        AttributePropertyConfig {
            property_name: String::new(),
            public: false,
            doc: String::new(),
            attr: StructConfig::empty(),
            owner_type: StructConfig::empty(),
            value_type: StructConfig::empty(),
            rust_primitive: None,
            primitive_test_value: None,
            hereditary: true,
        }
    }
}

fn concat3(a: &str, b: &str, c: &str) -> (res: String)
    ensures
        res@ == a@ + b@ + c@,
{
    let mut res = a.to_owned();
    res.append(b);
    res.append(c);
    res
}

/// The code that wraps a primitive argument into a value concept.
pub open spec fn wrap_primitive_text(cfg: AttributePropertyConfig) -> Seq<char> {
    "let mut value_concept = "@ + cfg.value_type.name@ + "::new();\nvalue_concept.set_value("@ + cfg.property_name@ + ");"@
}

/// What the setter links the owner to: the wrapped primitive or the value concept itself.
pub open spec fn final_value(cfg: AttributePropertyConfig) -> Seq<char> {
    if cfg.rust_primitive is Some {
        "value_concept.essence()"@
    } else {
        cfg.property_name@ + ".essence()"@
    }
}

/// The call that links the owner to the value.
pub open spec fn add_outgoing_view(cfg: AttributePropertyConfig) -> FragmentV {
    FragmentV::Call(
        CallV {
            call: AtomicV { imports: Seq::empty(), atom: "self.essence_mut().add_outgoing"@ },
            args: seq![plain(cfg.attr.name@ + "::TYPE_ID"@), plain(final_value(cfg))],
            is_macro: false,
        },
    )
}

/// The setter of an attribute.
pub open spec fn attr_setter_view(cfg: AttributePropertyConfig) -> FunctionV {
    function_v(
        "set_"@ + cfg.property_name@,
        Some("Set "@ + cfg.doc@),
        cfg.public,
        Seq::empty(),
        Some(SelfReference::Mutable),
        seq![
            (
                cfg.property_name@,
                match cfg.rust_primitive {
                    Some(p) => p@,
                    None => "&"@ + cfg.value_type.name@,
                },
            ),
        ],
        None,
        seq![
            cfg.attr.import@,
            cfg.value_type.import@,
            "zamm_yin::tao::archetype::ArchetypeTrait"@,
            "zamm_yin::tao::form::FormTrait"@,
            "zamm_yin::node_wrappers::BaseNodeTrait"@,
            "zamm_yin::node_wrappers::CommonNodeTrait"@,
        ],
        (if cfg.rust_primitive is Some {
            seq![plain(wrap_primitive_text(cfg))]
        } else {
            Seq::empty()
        }) + seq![add_outgoing_view(cfg)],
    )
}

/// Get the setter of an attribute.
pub fn setter_fragment(cfg: &AttributePropertyConfig) -> (res: FunctionFragment)
    ensures
        res@ == attr_setter_view(*cfg),
{
    proof {
        reveal_strlit("");
    }
    let mut f = FunctionFragment::new(concat3("set_", cfg.property_name.as_str(), ""));
    f.add_import(cfg.attr.import.clone());
    f.add_import(cfg.value_type.import.clone());
    f.add_import("zamm_yin::tao::archetype::ArchetypeTrait".to_owned());
    f.add_import("zamm_yin::tao::form::FormTrait".to_owned());
    f.add_import("zamm_yin::node_wrappers::BaseNodeTrait".to_owned());
    f.add_import("zamm_yin::node_wrappers::CommonNodeTrait".to_owned());
    if cfg.public {
        f.mark_as_public();
    }
    f.document(concat3("Set ", cfg.doc.as_str(), ""));
    f.set_self_reference(SelfReference::Mutable);
    let ghost before = f@.content.items;
    match &cfg.rust_primitive {
        Some(primitive) => {
            f.add_arg(cfg.property_name.clone(), primitive.clone());
            let mut code = "let mut value_concept = ".to_owned();
            code.append(cfg.value_type.name.as_str());
            code.append("::new();\nvalue_concept.set_value(");
            code.append(cfg.property_name.as_str());
            code.append(");");
            assert(code@ =~= wrap_primitive_text(*cfg));
            f.append(Fragment::Atomic(AtomicFragment::new(code)));
        },
        None => {
            f.add_arg(cfg.property_name.clone(), concat3("&", cfg.value_type.name.as_str(), ""));
        },
    }
    let ghost middle = f@.content.items;
    let final_value_code = if cfg.rust_primitive.is_some() {
        "value_concept.essence()".to_owned()
    } else {
        concat3(cfg.property_name.as_str(), ".essence()", "")
    };
    assert(final_value_code@ == final_value(*cfg));
    let mut add_outgoing = FunctionCallFragment::new(
        AtomicFragment::new("self.essence_mut().add_outgoing".to_owned()),
    );
    add_outgoing.add_argument(
        Fragment::Atomic(AtomicFragment::new(concat3(cfg.attr.name.as_str(), "::TYPE_ID", ""))),
    );
    add_outgoing.add_argument(Fragment::Atomic(AtomicFragment::new(final_value_code)));
    proof {
        reveal_strlit("");
    }
    assert(add_outgoing@.args =~~= seq![
        plain(cfg.attr.name@ + "::TYPE_ID"@),
        plain(final_value(*cfg)),
    ]);
    assert(add_outgoing@.call =~~= (AtomicV {
        imports: Seq::empty(),
        atom: "self.essence_mut().add_outgoing"@,
    }));
    assert(FragmentV::Call(add_outgoing@) =~~= add_outgoing_view(*cfg));
    f.append(Fragment::Call(add_outgoing));
    assert(f@.imports =~= attr_setter_view(*cfg).imports);
    assert(f@.args =~= attr_setter_view(*cfg).args);
    assert(f@.content.items =~~= attr_setter_view(*cfg).content.items);
    assert(f@ =~~= attr_setter_view(*cfg));
    f
}

/// The accessors that skip what the owner inherits, for an attribute that is not inherited.
pub open spec fn nonhereditary_access(hereditary: bool) -> Seq<char> {
    if hereditary {
        ""@
    } else {
        "\n    .inheritance_wrapper()\n    .base_wrapper()"@
    }
}

/// What turns the value concept into the primitive, for a primitive attribute.
pub open spec fn primitive_map(cfg: AttributePropertyConfig) -> Seq<char> {
    if cfg.rust_primitive is Some {
        ".value().unwrap()"@
    } else {
        ""@
    }
}

/// The body of the getter of an attribute.
pub open spec fn attr_getter_text(cfg: AttributePropertyConfig) -> Seq<char> {
    "self.essence()"@ + nonhereditary_access(cfg.hereditary) + "\n    .outgoing_nodes("@ + cfg.attr.name@ + "::TYPE_ID)\n    .first()\n    .map(|f| "@ + cfg.value_type.name@ + "::from(f.id())"@ + primitive_map(cfg) + ")"@
}

/// The type that the getter returns, inside `Option`.
pub open spec fn getter_base_type(cfg: AttributePropertyConfig) -> Seq<char> {
    match cfg.rust_primitive {
        Some(p) => "Rc<"@ + p@ + ">"@,
        None => cfg.value_type.name@,
    }
}

/// The getter of an attribute.
pub open spec fn attr_getter_view(cfg: AttributePropertyConfig) -> FunctionV {
    function_v(
        cfg.property_name@,
        Some("Get "@ + cfg.doc@),
        cfg.public,
        if cfg.rust_primitive is Some {
            seq!["allow(clippy::rc_buffer)"@]
        } else {
            Seq::empty()
        },
        Some(SelfReference::Immutable),
        Seq::empty(),
        Some("Option<"@ + getter_base_type(cfg) + ">"@),
        seq![
            cfg.attr.import@,
            "zamm_yin::tao::archetype::ArchetypeTrait"@,
            "zamm_yin::tao::form::FormTrait"@,
            "zamm_yin::node_wrappers::BaseNodeTrait"@,
        ] + if cfg.rust_primitive is Some {
            seq!["std::rc::Rc"@]
        } else {
            Seq::empty()
        },
        seq![plain(attr_getter_text(cfg))],
    )
}

/// Get the getter of an attribute.
pub fn getter_fragment(cfg: &AttributePropertyConfig) -> (res: FunctionFragment)
    ensures
        res@ == attr_getter_view(*cfg),
{
    proof {
        reveal_strlit("");
    }
    let mut f = FunctionFragment::new(cfg.property_name.clone());
    f.add_import(cfg.attr.import.clone());
    f.add_import("zamm_yin::tao::archetype::ArchetypeTrait".to_owned());
    f.add_import("zamm_yin::tao::form::FormTrait".to_owned());
    f.add_import("zamm_yin::node_wrappers::BaseNodeTrait".to_owned());
    if cfg.public {
        f.mark_as_public();
    }
    f.document(concat3("Get ", cfg.doc.as_str(), ""));
    if cfg.rust_primitive.is_some() {
        f.add_attribute("allow(clippy::rc_buffer)".to_owned());
    }
    f.set_self_reference(SelfReference::Immutable);
    let base_return_type = match &cfg.rust_primitive {
        Some(primitive) => {
            f.add_import("std::rc::Rc".to_owned());
            concat3("Rc<", primitive.as_str(), ">")
        },
        None => cfg.value_type.name.clone(),
    };
    f.set_return(concat3("Option<", base_return_type.as_str(), ">"));
    let inheritance = if cfg.hereditary {
        ""
    } else {
        "\n    .inheritance_wrapper()\n    .base_wrapper()"
    };
    let primitive_map_s = if cfg.rust_primitive.is_some() {
        ".value().unwrap()"
    } else {
        ""
    };
    let mut code = "self.essence()".to_owned();
    code.append(inheritance);
    code.append("\n    .outgoing_nodes(");
    code.append(cfg.attr.name.as_str());
    code.append("::TYPE_ID)\n    .first()\n    .map(|f| ");
    code.append(cfg.value_type.name.as_str());
    code.append("::from(f.id())");
    code.append(primitive_map_s);
    code.append(")");
    assert(code@ =~= attr_getter_text(*cfg));
    f.append(Fragment::Atomic(AtomicFragment::new(code)));
    proof {
        reveal_strlit("");
    }
    assert(f@.imports =~= attr_getter_view(*cfg).imports);
    assert(f@.attributes =~= attr_getter_view(*cfg).attributes);
    assert(f@.content.items =~~= attr_getter_view(*cfg).content.items);
    assert(f@ =~~= attr_getter_view(*cfg));
    f
}

/// The value that the tests set.
pub open spec fn test_value(cfg: AttributePropertyConfig) -> Seq<char> {
    match cfg.primitive_test_value {
        Some(v) => v@,
        None => cfg.value_type.name@ + "::new()"@,
    }
}

/// How the test passes the value to the setter.
pub open spec fn value_set(cfg: AttributePropertyConfig) -> Seq<char> {
    if cfg.primitive_test_value is Some {
        "value.clone()"@
    } else {
        "&value"@
    }
}

/// How the inheritance test passes the value to the setter: a primitive that is not checked
/// again afterwards is moved rather than cloned.
pub open spec fn inherited_value_set(cfg: AttributePropertyConfig) -> Seq<char> {
    if cfg.primitive_test_value is Some {
        if cfg.hereditary {
            "value.clone()"@
        } else {
            "value"@
        }
    } else {
        "&value"@
    }
}

/// What the test expects the getter to return.
pub open spec fn value_get(cfg: AttributePropertyConfig) -> Seq<char> {
    if cfg.primitive_test_value is Some {
        "Rc::new(value)"@
    } else {
        "value"@
    }
}

/// What the inheritance test expects the child's getter to return.
pub open spec fn inheritance_expectation(cfg: AttributePropertyConfig) -> Seq<char> {
    if cfg.hereditary {
        "Some("@ + value_get(cfg) + ")"@
    } else {
        "None"@
    }
}

fn test_value_of(cfg: &AttributePropertyConfig) -> (res: String)
    ensures
        res@ == test_value(*cfg),
{
    proof {
        reveal_strlit("");
    }
    match &cfg.primitive_test_value {
        Some(v) => v.clone(),
        None => concat3(cfg.value_type.name.as_str(), "::new()", ""),
    }
}

/// The statements of the test that an attribute can be set and read back.
pub open spec fn attr_test_text(cfg: AttributePropertyConfig) -> Seq<char> {
    "let mut new_instance = "@ + cfg.owner_type.name@ + "::new();\nassert_eq!(new_instance."@ + ""@ + cfg.property_name@ + "(), None);\n\nlet value = "@ + test_value(cfg) + ";\nnew_instance."@ + "set_"@ + cfg.property_name@ + "("@ + value_set(cfg) + ");\nassert_eq!(new_instance."@ + ""@ + cfg.property_name@ + "(), Some("@ + value_get(cfg) + "));"@
}

/// The test that an attribute can be set and read back.
pub open spec fn attr_test_view(cfg: AttributePropertyConfig) -> FunctionV {
    function_v(
        "test_set_and_get_"@ + cfg.property_name@,
        None,
        false,
        seq!["test"@],
        None,
        Seq::empty(),
        None,
        seq![cfg.owner_type.import@] + if cfg.rust_primitive is None {
            seq![cfg.value_type.import@]
        } else {
            Seq::empty()
        },
        seq![kb_init_call(), plain(attr_test_text(cfg))],
    )
}

/// Get the test that an attribute can be set and read back.
pub fn test_fragment(cfg: &AttributePropertyConfig) -> (res: FunctionFragment)
    ensures
        res@ == attr_test_view(*cfg),
{
    proof {
        reveal_strlit("");
    }
    let name = concat3("test_set_and_get_", cfg.property_name.as_str(), "");
    let mut f = kb_test_function(name.as_str());
    f.add_import(cfg.owner_type.import.clone());
    if cfg.rust_primitive.is_none() {
        f.add_import(cfg.value_type.import.clone());
    }
    let value = test_value_of(cfg);
    let value_set_s = if cfg.primitive_test_value.is_some() {
        "value.clone()"
    } else {
        "&value"
    };
    let value_get_s = if cfg.primitive_test_value.is_some() {
        "Rc::new(value)"
    } else {
        "value"
    };
    let inheritance = String::new();
    let mut code = "let mut new_instance = ".to_owned();
    code.append(cfg.owner_type.name.as_str());
    code.append("::new();\nassert_eq!(new_instance.");
    code.append("");
    code.append(cfg.property_name.as_str());
    code.append("(), None);\n\nlet value = ");
    code.append(value.as_str());
    code.append(";\nnew_instance.");
    code.append("set_");
    code.append(cfg.property_name.as_str());
    code.append("(");
    code.append(value_set_s);
    code.append(");\nassert_eq!(new_instance.");
    code.append("");
    code.append(cfg.property_name.as_str());
    code.append("(), Some(");
    code.append(value_get_s);
    code.append("));");
    assert(code@ =~= attr_test_text(*cfg));
    f.append(Fragment::Atomic(AtomicFragment::new(code)));
    proof {
        reveal_strlit("");
    }
    assert(f@.imports =~= attr_test_view(*cfg).imports);
    assert(f@.attributes =~= attr_test_view(*cfg).attributes);
    assert(f@.content.items =~~= attr_test_view(*cfg).content.items);
    assert(f@ =~~= attr_test_view(*cfg));
    f
}

/// The statements of the test that an attribute is inherited, or not, by the children of its
/// owner.
pub open spec fn attr_inheritance_text(cfg: AttributePropertyConfig) -> Seq<char> {
    "initialize_kb();\nlet new_type = "@ + cfg.owner_type.name@ + "::archetype().individuate_as_archetype();\nlet new_instance = "@ + cfg.owner_type.name@ + "::from(new_type.individuate_as_form().id());\nassert_eq!(new_instance."@ + ""@ + cfg.property_name@ + "(), None);\n\nlet value = "@ + test_value(cfg) + ";\n"@ + cfg.owner_type.name@ + "::from(new_type.id())."@ + "set_"@ + cfg.property_name@ + "("@ + inherited_value_set(cfg) + ");\nassert_eq!(new_instance."@ + ""@ + cfg.property_name@ + "(), "@ + inheritance_expectation(cfg) + ");\n"@
}

/// The test that an attribute is inherited, or not, by the children of its owner.
pub open spec fn attr_inheritance_view(cfg: AttributePropertyConfig) -> FunctionV {
    function_v(
        "test_"@ + cfg.property_name@ + "_"@ + super::flag::inheritance_word(cfg.hereditary),
        None,
        false,
        seq!["test"@],
        None,
        Seq::empty(),
        None,
        seq!["crate::tao::initialize_kb"@, cfg.owner_type.import@],
        seq![plain(attr_inheritance_text(cfg))],
    )
}

/// The inheritance test needs the knowledge base's initializer and the owner's type, and its
/// last line checks what a child of the owner reads: nothing where the attribute is not
/// hereditary, else the value that was set on the parent type.
pub proof fn lemma_inheritance_test(cfg: AttributePropertyConfig)
    ensures
        imports_of(FragmentV::Function(attr_inheritance_view(cfg))) == seq![
            "crate::tao::initialize_kb"@,
            cfg.owner_type.import@,
        ],
        ({
            let text = attr_inheritance_text(cfg);
            let line = "assert_eq!(new_instance."@ + cfg.property_name@ + "(), "@
                + inheritance_expectation(cfg) + ");\n"@;
            text.len() >= line.len() && text.subrange(text.len() - line.len(), text.len() as int)
                == line
        }),
{
    let stmt = plain(attr_inheritance_text(cfg));
    lemma_imports_all_push(Seq::<FragmentV>::empty(), stmt);
    assert(Seq::<FragmentV>::empty().push(stmt) =~= seq![stmt]);
    assert(imports_all(seq![stmt]) =~= Seq::<Seq<char>>::empty());
    assert(seq!["crate::tao::initialize_kb"@, cfg.owner_type.import@] + Seq::<Seq<char>>::empty()
        =~= seq!["crate::tao::initialize_kb"@, cfg.owner_type.import@]);
    let text = attr_inheritance_text(cfg);
    let line = "assert_eq!(new_instance."@ + cfg.property_name@ + "(), "@ + inheritance_expectation(
        cfg,
    ) + ");\n"@;
    let t0 = "initialize_kb();\nlet new_type = "@ + cfg.owner_type.name@
        + "::archetype().individuate_as_archetype();\nlet new_instance = "@ + cfg.owner_type.name@
        + "::from(new_type.individuate_as_form().id());\nassert_eq!(new_instance."@ + ""@
        + cfg.property_name@ + "(), None);\n\nlet value = "@ + test_value(cfg) + ";\n"@
        + cfg.owner_type.name@ + "::from(new_type.id())."@ + "set_"@ + cfg.property_name@ + "("@
        + inherited_value_set(cfg);
    reveal_strlit("");
    reveal_strlit(");\nassert_eq!(new_instance.");
    reveal_strlit(");\n");
    reveal_strlit("assert_eq!(new_instance.");
    let joined = ");\nassert_eq!(new_instance."@;
    let head = "assert_eq!(new_instance."@;
    assert(joined =~= ");\n"@ + head);
    let x = inheritance_expectation(cfg);
    let p = cfg.property_name@;
    assert(text == t0 + joined + ""@ + p + "(), "@ + x + ");\n"@);
    let before = t0 + ");\n"@;
    assert(t0 + joined + ""@ + p + "(), "@ + x + ");\n"@ =~= before + line);
    assert((before + line).subrange(before.len() as int, (before + line).len() as int) =~= line);
}

/// Get the test that an attribute is inherited, or not, by the children of its owner.
pub fn test_inheritance_fragment(cfg: &AttributePropertyConfig) -> (res: FunctionFragment)
    ensures
        res@ == attr_inheritance_view(*cfg),
{
    let inheritance_name = if cfg.hereditary {
        "inheritance"
    } else {
        "non_inheritance"
    };
    let value = test_value_of(cfg);
    let value_set_s = if cfg.primitive_test_value.is_some() {
        if cfg.hereditary {
            "value.clone()"
        } else {
            "value"
        }
    } else {
        "&value"
    };
    let value_get_s = if cfg.primitive_test_value.is_some() {
        "Rc::new(value)"
    } else {
        "value"
    };
    let inheritance = if cfg.hereditary {
        concat3("Some(", value_get_s, ")")
    } else {
        "None".to_owned()
    };
    let mut name = concat3("test_", cfg.property_name.as_str(), "_");
    name.append(inheritance_name);
    let mut f = FunctionFragment::new(name);
    f.mark_as_test();
    f.add_import("crate::tao::initialize_kb".to_owned());
    f.add_import(cfg.owner_type.import.clone());
    let mut code = "initialize_kb();\nlet new_type = ".to_owned();
    code.append(cfg.owner_type.name.as_str());
    code.append("::archetype().individuate_as_archetype();\nlet new_instance = ");
    code.append(cfg.owner_type.name.as_str());
    code.append("::from(new_type.individuate_as_form().id());\nassert_eq!(new_instance.");
    code.append("");
    code.append(cfg.property_name.as_str());
    code.append("(), None);\n\nlet value = ");
    code.append(value.as_str());
    code.append(";\n");
    code.append(cfg.owner_type.name.as_str());
    code.append("::from(new_type.id()).");
    code.append("set_");
    code.append(cfg.property_name.as_str());
    code.append("(");
    code.append(value_set_s);
    code.append(");\nassert_eq!(new_instance.");
    code.append("");
    code.append(cfg.property_name.as_str());
    code.append("(), ");
    code.append(inheritance.as_str());
    code.append(");\n");
    assert(code@ =~= attr_inheritance_text(*cfg));
    f.append(Fragment::Atomic(AtomicFragment::new(code)));
    assert(f@.attributes =~= seq!["test"@]);
    assert(f@.imports =~= seq!["crate::tao::initialize_kb"@, cfg.owner_type.import@]);
    assert(f@.content.items =~~= seq![plain(attr_inheritance_text(*cfg))]);
    assert(f@ =~~= attr_inheritance_view(*cfg));
    f
}

/// Add the getter and setter of an attribute to an implementation, and their tests to the file.
pub fn add_attr_to_impl(
    cfg: &AttributePropertyConfig,
    implementation: &mut ImplementationFragment,
    file: &mut FileFragment,
)
    ensures
        final(implementation)@ == (ImplV {
            content: AppendedV {
                items: old(implementation)@.content.items.push(
                    FragmentV::Function(attr_getter_view(*cfg)),
                ).push(FragmentV::Function(attr_setter_view(*cfg))),
                ..old(implementation)@.content
            },
            ..old(implementation)@
        }),
        final(file)@ == (FileV {
            tests: ModuleV {
                content: AppendedV {
                    items: old(file)@.tests.content.items.push(
                        FragmentV::Function(attr_test_view(*cfg)),
                    ).push(FragmentV::Function(attr_inheritance_view(*cfg))),
                    ..old(file)@.tests.content
                },
                ..old(file)@.tests
            },
            ..old(file)@
        }),
{
    implementation.append(Fragment::Function(getter_fragment(cfg)));
    implementation.append(Fragment::Function(setter_fragment(cfg)));
    file.append_test(Fragment::Function(test_fragment(cfg)));
    file.append_test(Fragment::Function(test_inheritance_fragment(cfg)));
}

} // verus!
