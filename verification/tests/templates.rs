use zamm_yang::concept::archetype::{archetype_impl_fragment, ArchetypeFormatConfig};
use zamm_yang::concept::archetype_module::{archetype_module_fragment, code_archetype_module, ArchetypeModuleConfig};
use zamm_yang::concept::attribute::{add_attr_fragments, AttributeFormatConfig};
use zamm_yang::concept::attribute_property::{self, AttributePropertyConfig};
use zamm_yang::concept::auto_init_kb::{code_init, init_types_fragment, KBInitConfig, Link};
use zamm_yang::concept::data::{add_data_fragments, DataFormatConfig};
use zamm_yang::concept::flag::{self, FlagConfig};
use zamm_yang::concept::form::{self, form_extension_fragment, form_impl_fragment, FormFormatConfig};
use zamm_yang::concept::tao::{self, deref_mut_fragment, tao_file_fragment, TaoConfig};
use zamm_yang::file::FileFragment;
use zamm_yang::fragment::StructConfig;

fn cfg(name: &str, import: &str) -> StructConfig {
    StructConfig {
        name: name.to_owned(),
        import: import.to_owned(),
    }
}

#[test]
fn archetype_test_archetype_form_trait_fragment() {
    assert_eq!(
        archetype_impl_fragment(&ArchetypeFormatConfig {
            tao_cfg: TaoConfig {
                this: StructConfig::new("crate::MyArchetype".to_owned()),
                ..TaoConfig::default()
            },
            infra_archetype: StructConfig::new("crate::MyAttribute".to_owned()),
        })
        .body(80),
        "impl ArchetypeFormTrait for MyArchetype {\n    type SubjectForm = MyAttribute;\n}"
    );
}

#[test]
fn test_archetype_module() {
    let cfg = ArchetypeModuleConfig {
        doc: Some("Primary is the ancestor of all other forms in this module.".to_owned()),
        archetype_names: vec![
            "primary".to_owned(),
            "concept-one".to_owned(),
            "concept-two".to_owned(),
        ],
        private_submodules: vec![],
        public_submodules: vec!["subtype".to_owned(), "primary_extension".to_owned()],
        re_exports: vec!["zamm_yin::path::to::primary::*".to_owned()],
    };
    let expected = "//! Primary is the ancestor of all other forms in this module.\n\npub mod primary_extension;\npub mod subtype;\n\nmod concept_one_form;\nmod concept_two_form;\nmod primary_form;\n\npub use concept_one_form::ConceptOne;\npub use concept_two_form::ConceptTwo;\npub use primary_form::Primary;\npub use zamm_yin::path::to::primary::*;\n";
    assert_eq!(archetype_module_fragment(&cfg).body(80), expected);
    assert_eq!(code_archetype_module(&cfg), expected);
}

#[test]
fn test_attribute_generation() {
    let mut f = FileFragment::new();
    add_attr_fragments(
        &AttributeFormatConfig {
            tao_cfg: TaoConfig {
                this: StructConfig {
                    name: "MyNewAttr".to_owned(),
                    ..StructConfig::empty()
                },
                parent_name: "MyAttr".to_owned(),
                archetype_name: "AttributeArchetype".to_owned(),
                ..TaoConfig::default()
            },
            owner_type: cfg("MyOwner", "zamm_yin::tao::MyOwner"),
            owner_form: cfg("MyOwner", "zamm_yin::tao::MyOwner"),
            value_type: cfg("MyValue", "zamm_yin::tao::MyValue"),
            value_form: cfg("MyValue", "zamm_yin::tao::MyValue"),
            owner_into_archetype: ".as_archetype()".to_owned(),
            value_into_archetype: ".as_archetype()".to_owned(),
        },
        &mut f,
    );
    let code = f.generate_code();

    assert!(code.contains("AttributeArchetype"));
    assert!(code.contains("type OwnerForm = MyOwner"));
    assert!(code.contains("type ValueForm = MyValue"));
    assert!(code.contains("check_attribute_constraints"));
    assert!(code.contains(
        "assert_eq!(
            MyNewAttr::archetype().owner_archetype(),
            MyOwner::archetype().as_archetype()
        )"
    ));
}

fn concept_attr_config() -> AttributePropertyConfig {
    AttributePropertyConfig {
        public: false,
        property_name: "associated_crate".to_owned(),
        doc: "the crate associated with the struct.".to_owned(),
        attr: cfg(
            "AssociatedCrate",
            "crate::tao::relations::attribute::AssociatedCrate",
        ),
        owner_type: cfg("Form", "zamm_yin::tao::form::Form"),
        value_type: cfg("Crate", "zamm_yin::tao::form::Crate"),
        rust_primitive: None,
        primitive_test_value: None,
        hereditary: true,
    }
}

fn primitive_attr_config() -> AttributePropertyConfig {
    AttributePropertyConfig {
        rust_primitive: Some("String".to_owned()),
        primitive_test_value: Some("String::new()".to_owned()),
        ..concept_attr_config()
    }
}

#[test]
fn attribute_property_test_setter_fragment_body() {
    assert_eq!(
        attribute_property::setter_fragment(&concept_attr_config()).body(80),
        "/// Set the crate associated with the struct.\nfn set_associated_crate(&mut self, associated_crate: &Crate) {\n    self.essence_mut().add_outgoing(\n        AssociatedCrate::TYPE_ID,\n        associated_crate.essence(),\n    );\n}"
    );
}

#[test]
fn test_primitive_setter_fragment_body() {
    assert_eq!(
        attribute_property::setter_fragment(&primitive_attr_config()).body(80),
        "/// Set the crate associated with the struct.\nfn set_associated_crate(&mut self, associated_crate: String) {\n    let mut value_concept = Crate::new();\n    value_concept.set_value(associated_crate);\n    self.essence_mut().add_outgoing(\n        AssociatedCrate::TYPE_ID,\n        value_concept.essence(),\n    );\n}"
    );
}

#[test]
fn attribute_property_test_getter_fragment_body() {
    assert_eq!(
        attribute_property::getter_fragment(&concept_attr_config()).body(80),
        "/// Get the crate associated with the struct.\nfn associated_crate(&self) -> Option<Crate> {\n    self.essence()\n        .outgoing_nodes(AssociatedCrate::TYPE_ID)\n        .first()\n        .map(|f| Crate::from(f.id()))\n}"
    );
}

#[test]
fn test_primitive_getter_fragment_body() {
    assert_eq!(
        attribute_property::getter_fragment(&primitive_attr_config()).body(80),
        "/// Get the crate associated with the struct.\n#[allow(clippy::rc_buffer)]\nfn associated_crate(&self) -> Option<Rc<String>> {\n    self.essence()\n        .outgoing_nodes(AssociatedCrate::TYPE_ID)\n        .first()\n        .map(|f| Crate::from(f.id()).value().unwrap())\n}"
    );
}

#[test]
fn test_primitive_nonhereditary_getter_fragment_body() {
    assert_eq!(
        attribute_property::getter_fragment(&AttributePropertyConfig {
            hereditary: false,
            ..primitive_attr_config()
        })
        .body(80),
        "/// Get the crate associated with the struct.\n#[allow(clippy::rc_buffer)]\nfn associated_crate(&self) -> Option<Rc<String>> {\n    self.essence()\n        .inheritance_wrapper()\n        .base_wrapper()\n        .outgoing_nodes(AssociatedCrate::TYPE_ID)\n        .first()\n        .map(|f| Crate::from(f.id()).value().unwrap())\n}"
    );
}

#[test]
fn attribute_property_test_test_fragment_body() {
    assert_eq!(
        attribute_property::test_fragment(&concept_attr_config()).body(80),
        "#[test]\nfn test_set_and_get_associated_crate() {\n    initialize_kb();\n    let mut new_instance = Form::new();\n    assert_eq!(new_instance.associated_crate(), None);\n\n    let value = Crate::new();\n    new_instance.set_associated_crate(&value);\n    assert_eq!(new_instance.associated_crate(), Some(value));\n}"
    );
}

#[test]
fn test_primitive_test_fragment_body() {
    assert_eq!(
        attribute_property::test_fragment(&primitive_attr_config()).body(80),
        "#[test]\nfn test_set_and_get_associated_crate() {\n    initialize_kb();\n    let mut new_instance = Form::new();\n    assert_eq!(new_instance.associated_crate(), None);\n\n    let value = String::new();\n    new_instance.set_associated_crate(value.clone());\n    assert_eq!(new_instance.associated_crate(), Some(Rc::new(value)));\n}"
    );
}

#[test]
fn attribute_property_test_test_inheritance_fragment_body() {
    assert_eq!(
        attribute_property::test_inheritance_fragment(&concept_attr_config()).body(80),
        "#[test]\nfn test_associated_crate_inheritance() {\n    initialize_kb();\n    let new_type = Form::archetype().individuate_as_archetype();\n    let new_instance = Form::from(new_type.individuate_as_form().id());\n    assert_eq!(new_instance.associated_crate(), None);\n\n    let value = Crate::new();\n    Form::from(new_type.id()).set_associated_crate(&value);\n    assert_eq!(new_instance.associated_crate(), Some(value));\n}"
    );
}

#[test]
fn test_primitive_test_inheritance_fragment_body() {
    assert_eq!(
        attribute_property::test_inheritance_fragment(&primitive_attr_config()).body(80),
        "#[test]\nfn test_associated_crate_inheritance() {\n    initialize_kb();\n    let new_type = Form::archetype().individuate_as_archetype();\n    let new_instance = Form::from(new_type.individuate_as_form().id());\n    assert_eq!(new_instance.associated_crate(), None);\n\n    let value = String::new();\n    Form::from(new_type.id()).set_associated_crate(value.clone());\n    assert_eq!(new_instance.associated_crate(), Some(Rc::new(value)));\n}"
    );
}

#[test]
fn test_init_one_concept() {
    assert_eq!(
        init_types_fragment(&KBInitConfig {
            concepts_to_initialize: vec![cfg("Me", "crate::people::Me")],
            ..KBInitConfig::default()
        })
        .body(80),
        "/// Adds all concepts to knowledge graph.\npub fn initialize_types() {\n    let mut ig = InjectionGraph::new();\n    #[rustfmt::skip]\n    initialize_type!(\n        ig,\n        (\n            Me\n        )\n    );\n}"
    );
}

fn three_concepts() -> Vec<StructConfig> {
    vec![
        cfg("Me", "zamm_yin::people::Me"),
        cfg("You", "crate::people::You"),
        cfg("Us", "crate::groups::Us"),
    ]
}

#[test]
fn test_init_multiple_concepts() {
    assert_eq!(
        init_types_fragment(&KBInitConfig {
            concepts_to_initialize: three_concepts(),
            ..KBInitConfig::default()
        })
        .body(80),
        "/// Adds all concepts to knowledge graph.\npub fn initialize_types() {\n    let mut ig = InjectionGraph::new();\n    #[rustfmt::skip]\n    initialize_type!(\n        ig,\n        (\n            Me,\n            You,\n            Us\n        )\n    );\n}"
    );
}

#[test]
fn test_init_additional_relations() {
    assert_eq!(
        init_types_fragment(&KBInitConfig {
            concepts_to_initialize: three_concepts(),
            attributes: vec![
                Link {
                    from: StructConfig::new("zamm_yin::people::Me".to_owned()),
                    link_type: StructConfig::new("crate::emotions::Dislike".to_owned()),
                    to: StructConfig::new("crate::people::You".to_owned()),
                },
                Link {
                    from: StructConfig::new("zamm_yin::people::Me".to_owned()),
                    link_type: StructConfig::new("crate::emotions::Like".to_owned()),
                    to: StructConfig::new("crate::people::Us".to_owned()),
                },
            ],
        })
        .body(80),
        "/// Adds all concepts to knowledge graph.\npub fn initialize_types() {\n    let mut ig = InjectionGraph::new();\n    #[rustfmt::skip]\n    initialize_type!(\n        ig,\n        (\n            Me,\n            You,\n            Us\n        )\n    );\n    ig.add_edge(Me::TYPE_ID, Dislike::TYPE_ID, You::TYPE_ID);\n    ig.add_edge(Me::TYPE_ID, Like::TYPE_ID, Us::TYPE_ID);\n}"
    );
}

#[test]
fn test_init_file() {
    let code = code_init(
        &KBInitConfig {
            concepts_to_initialize: three_concepts(),
            ..KBInitConfig::default()
        },
        "zamm_yin",
    );
    assert!(code.contains("YIN_MAX_ID: usize = 2"));
    assert!(!code.contains("zamm_yin"));
}

#[test]
fn test_string_output() {
    let mut f = FileFragment::new();
    add_data_fragments(
        &DataFormatConfig {
            rust_primitive_name: "String".to_owned(),
            ..DataFormatConfig::default()
        },
        &mut f,
    );
    let code = f.generate_code();
    assert!(code.contains("String"));
    assert!(!code.contains("i64"));
    assert!(code.contains("set_value"));
}

#[test]
fn test_int_output() {
    let mut f = FileFragment::new();
    add_data_fragments(
        &DataFormatConfig {
            rust_primitive_name: "i64".to_owned(),
            ..DataFormatConfig::default()
        },
        &mut f,
    );
    let code = f.generate_code();
    assert!(code.contains("i64"));
    assert!(code.contains("set_value"));
}

fn flag_config() -> FlagConfig {
    FlagConfig {
        public: false,
        property_name: "newly_defined".to_owned(),
        doc: "newly defined as part of the current build.".to_owned(),
        flag: cfg("NewlyDefined", "crate::tao::relation::flag::NewlyDefined"),
        owner_type: cfg("Tao", "zamm_yin::tao::Tao"),
        hereditary: true,
    }
}

#[test]
fn flag_test_setter_fragment_body() {
    assert_eq!(
        flag::setter_fragment(&flag_config()).body(80),
        "/// Mark this as newly defined as part of the current build.\nfn mark_newly_defined(&mut self) {\n    self.essence_mut().add_flag(NewlyDefined::TYPE_ID);\n}"
    );
}

#[test]
fn flag_test_getter_fragment_body() {
    assert_eq!(
        flag::getter_fragment(&flag_config()).body(80),
        "/// Whether this is marked as newly defined as part of the current build.\nfn is_newly_defined(&self) -> bool {\n    self.essence().has_flag(NewlyDefined::TYPE_ID)\n}"
    );
}

#[test]
fn flag_test_test_fragment_body() {
    assert_eq!(
        flag::test_fragment(&flag_config()).body(80),
        "#[test]\nfn test_mark_and_check_newly_defined() {\n    initialize_kb();\n    let mut new_instance = Tao::new();\n    assert!(!new_instance.is_newly_defined());\n\n    new_instance.mark_newly_defined();\n    assert!(new_instance.is_newly_defined());\n}"
    );
}

#[test]
fn flag_test_test_inheritance_fragment_body() {
    assert_eq!(
        flag::test_inheritance_fragment(&flag_config()).body(80),
        "#[test]\nfn test_newly_defined_inheritance() {\n    initialize_kb();\n    let new_type = Tao::archetype().individuate_as_archetype();\n    let new_instance = Tao::from(new_type.individuate_as_form().id());\n    assert!(!new_instance.is_newly_defined());\n\n    Tao::from(new_type.id()).mark_newly_defined();\n    assert!(new_instance.is_newly_defined());\n}"
    );
}

#[test]
fn test_form_fragment() {
    assert_eq!(
        form_impl_fragment(&TaoConfig {
            this: StructConfig {
                name: "MyConcept".to_owned(),
                ..StructConfig::empty()
            },
            ..TaoConfig::default()
        })
        .body(80),
        "impl FormTrait for MyConcept {}"
    );
}

#[test]
fn form_test_deref_fragment() {
    assert_eq!(
        form::deref_fragment("MyConcept", &StructConfig::new("crate::MyParent".to_owned())).body(80),
        "impl From<MyConcept> for MyParent {\n    fn from(this: MyConcept) -> MyParent {\n        MyParent::from(this.base)\n    }\n}"
    );
}

#[test]
fn form_test_archetype_form_trait_fragment() {
    assert_eq!(
        form_extension_fragment(&FormFormatConfig {
            tao_cfg: TaoConfig {
                this: StructConfig::new("crate::MyAttribute".to_owned()),
                ..TaoConfig::default()
            },
            meta_archetype: Some(StructConfig::new("crate::MyAttributeArchetype".to_owned())),
            ..FormFormatConfig::default()
        })
        .body(80),
        "impl FormExtension for MyAttribute {\n    type MetaType = MyAttributeArchetype;\n}"
    );
}

fn tao_test_cfg() -> TaoConfig {
    TaoConfig {
        this: StructConfig {
            name: String::from("MyConcept"),
            ..StructConfig::empty()
        },
        ..TaoConfig::default()
    }
}

#[test]
fn test_default_internal_name_used() {
    let code = tao_file_fragment(&TaoConfig::default()).generate_code();
    assert!(code.contains(".set_internal_name("));
    assert!(!code.contains(".set_internal_name_str("));
    assert!(code.contains(".internal_name("));
    assert!(!code.contains(".internal_name_str("));
    assert!(!code.contains(".to_owned()"));
}

#[test]
fn tao_test_deref_fragment() {
    assert_eq!(
        tao::deref_fragment(&tao_test_cfg()).body(80),
        "impl Deref for MyConcept {\n    type Target = FinalNode;\n\n    fn deref(&self) -> &Self::Target {\n        &self.base\n    }\n}"
    );
}

#[test]
fn test_deref_mut_fragment() {
    assert_eq!(
        deref_mut_fragment(&tao_test_cfg()).body(80),
        "impl DerefMut for MyConcept {\n    fn deref_mut(&mut self) -> &mut Self::Target {\n        &mut self.base\n    }\n}"
    );
}
