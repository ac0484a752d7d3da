use zamm_yang::placement::{
    implementation_config, AttributeTypes, ancestor_names, concept_to_struct, file_path, import_path, in_own_submodule, ArchetypePlace,
};

/// Tao sits at the root of the hierarchy and has descendants of its own.
fn tao() -> ArchetypePlace {
    ArchetypePlace {
        name: "Tao".to_owned(),
        ancestry: vec![],
        own_submodule: true,
    }
}

/// Attribute descends from Tao and has descendants of its own.
fn attribute() -> ArchetypePlace {
    ArchetypePlace {
        name: "Attribute".to_owned(),
        ancestry: vec!["Tao".to_owned()],
        own_submodule: true,
    }
}

/// Owner descends from Attribute and has no descendants.
fn owner() -> ArchetypePlace {
    ArchetypePlace {
        name: "Owner".to_owned(),
        ancestry: vec!["Tao".to_owned(), "Attribute".to_owned()],
        own_submodule: false,
    }
}

#[test]
fn own_submodule_tao() {
    assert!(in_own_submodule(&vec![0, 1, 2, 3], 0));
}

#[test]
fn own_submodule_attributes() {
    assert!(in_own_submodule(&vec![2, 3], 2));
}

#[test]
fn own_submodule_nested() {
    assert!(!in_own_submodule(&vec![3], 3));
}

#[test]
fn no_individuals_means_no_submodule() {
    assert!(!in_own_submodule(&vec![], 5));
}

#[test]
fn folder_path_tao() {
    assert_eq!(file_path(&tao()), "src/tao/tao_form.rs");
}

#[test]
fn folder_path_attributes() {
    assert_eq!(file_path(&attribute()), "src/tao/attribute/attribute_form.rs");
}

#[test]
fn folder_path_nested() {
    assert_eq!(file_path(&owner()), "src/tao/attribute/owner_form.rs");
}

#[test]
fn import_path_tao() {
    assert_eq!(import_path(&tao()), "tao::Tao");
}

#[test]
fn import_path_attributes() {
    assert_eq!(import_path(&attribute()), "tao::attribute::Attribute");
}

#[test]
fn import_path_nested() {
    assert_eq!(import_path(&owner()), "tao::attribute::Owner");
}

#[test]
fn multi_word_names_are_snake_cased_in_paths() {
    let place = ArchetypePlace {
        name: "HasAttributeType".to_owned(),
        ancestry: vec!["Tao".to_owned(), "Relation".to_owned()],
        own_submodule: false,
    };
    assert_eq!(ancestor_names(&place, "/"), "tao/relation");
    assert_eq!(file_path(&place), "src/tao/relation/has_attribute_type_form.rs");
    assert_eq!(import_path(&place), "tao::relation::HasAttributeType");
}

#[test]
fn concept_struct_names_and_imports() {
    let s = concept_to_struct(&owner());
    assert_eq!(s.name, "Owner");
    assert_eq!(s.import, "tao::attribute::Owner");
}

#[test]
fn snake_names_become_camel_case_structs() {
    let place = ArchetypePlace {
        name: "my_concept".to_owned(),
        ancestry: vec!["tao".to_owned()],
        own_submodule: false,
    };
    assert_eq!(import_path(&place), "tao::MyConcept");
    assert_eq!(concept_to_struct(&place).name, "MyConcept");
    assert_eq!(file_path(&place), "src/tao/my_concept_form.rs");
}

fn place(name: &str, ancestry: &[&str], own: bool) -> ArchetypePlace {
    ArchetypePlace {
        name: name.to_owned(),
        ancestry: ancestry.iter().map(|a| a.to_string()).collect(),
        own_submodule: own,
    }
}

#[test]
fn implementation_of_an_attribute_archetype() {
    let target = place("Target", &["Tao", "Attribute"], false);
    let ancestors = vec![tao(), attribute()];
    let attrs = vec![owner()];
    let types = AttributeTypes {
        owner: place("Implement", &["Tao"], false),
        owner_is_tao: false,
        value: tao(),
        value_is_tao: true,
        form: place("Form", &["Tao"], false),
    };
    let plan = implementation_config(&target, &ancestors, &attrs, &vec![], Some(&types));
    assert_eq!(plan.name, "Target");
    assert_eq!(plan.parent.name, "Attribute");
    assert_eq!(plan.parent.import, "tao::attribute::Attribute");
    assert_eq!(plan.all_attributes.len(), 1);
    assert_eq!(plan.all_attributes[0].import, "tao::attribute::Owner");
    assert!(plan.introduced_attributes.is_empty());
    assert_eq!(plan.file_path, "src/tao/attribute/target_form.rs");
    let a = plan.attribute_structs.unwrap();
    assert_eq!(a.owner.name, "Implement");
    assert_eq!(a.owner_form.name, "Implement");
    assert_eq!(a.value.name, "Tao");
    assert_eq!(a.value_form.name, "Form");
    assert_eq!(a.value_form.import, "tao::Form");
}

#[test]
fn implementation_of_a_plain_archetype() {
    let target = place("MyType", &["Tao"], false);
    let plan = implementation_config(&target, &vec![tao()], &vec![], &vec![], None);
    assert_eq!(plan.parent.name, "Tao");
    assert!(plan.attribute_structs.is_none());
    assert_eq!(plan.file_path, "src/tao/my_type_form.rs");
}
