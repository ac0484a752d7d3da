use zamm_yang::definition::{
    order_by_ids, parse_yaml_plan, plan_concepts, ConceptPlan, NodeKey, NodePlan, PlanError,
};
use zamm_yang::yaml::{load_yaml, YamlValue};

fn plan(yaml: &str) -> ConceptPlan {
    match parse_yaml_plan(yaml) {
        Ok(p) => p,
        Err(e) => panic!("unexpected error {:?}", e),
    }
}

fn named(p: &NodePlan) -> Option<&str> {
    match &p.node {
        NodeKey::Named(n) => Some(n.as_str()),
        NodeKey::Anonymous(_) => None,
    }
}

fn s(x: &str) -> Option<String> {
    Some(x.to_owned())
}

#[test]
fn test_parse_archetype() {
    let p = plan("- define: Target\n  parent: Attribute\n");
    assert_eq!(p.defines, vec!["target".to_owned()]);
    assert_eq!(p.nodes.len(), 1);
    assert_eq!(named(&p.nodes[0]), Some("target"));
    assert_eq!(p.nodes[0].parent, s("attribute"));
    assert!(p.nodes[0].newly_defined);
}

#[test]
fn test_parse_archetype_no_name() {
    let p = plan("- parent: Attribute\n");
    assert!(p.defines.is_empty());
    assert_eq!(p.nodes.len(), 1);
    assert!(matches!(p.nodes[0].node, NodeKey::Anonymous(0)));
    assert_eq!(p.nodes[0].parent, s("attribute"));
    assert!(p.nodes[0].newly_defined);
}

#[test]
fn test_parse_attribute_owner_value_archetypes() {
    let p = plan(
        "- define: Target\n  parent: Attribute\n  owner_archetype: Implement\n  value_archetype: Tao\n",
    );
    assert_eq!(p.nodes.len(), 1);
    assert_eq!(named(&p.nodes[0]), Some("target"));
    assert_eq!(p.nodes[0].owner_archetype, s("implement"));
    assert_eq!(p.nodes[0].value_archetype, s("tao"));
}

#[test]
fn test_parse_has_attributes() {
    let p = plan("- define: Foo\n  parent: Tao\n  attributes:\n    - owner\n    - OwnerArchetype\n");
    assert_eq!(p.nodes.len(), 1);
    assert_eq!(named(&p.nodes[0]), Some("foo"));
    assert_eq!(p.nodes[0].parent, s("tao"));
    assert_eq!(
        p.nodes[0].attributes,
        vec!["owner".to_owned(), "owner-archetype".to_owned()]
    );
}

#[test]
fn test_parse_implement() {
    let p = plan("- define: Target\n  parent: Attribute\n- parent: Implement\n  target: Target\n  output_id: 2\n  documentation: Howdy, how ya doing?\n");
    assert_eq!(p.nodes.len(), 2);
    assert!(p.nodes[0].newly_defined);
    assert_eq!(p.nodes[1].parent, s("implement"));
    let i = p.nodes[1].implement.as_ref().unwrap();
    assert_eq!(i.target, "target");
    assert!(!i.attribute_logic);
    assert_eq!(i.output_id, 2);
    assert_eq!(i.documentation, s("Howdy, how ya doing?"));
    assert!(i.target_in_document);
}

#[test]
fn test_parse_implement_attr() {
    let p = plan("- define: Attribute\n  parent: Tao\n- parent: Implement\n  target: Attribute\n  output_id: 2\n  attribute_logic: true\n");
    assert_eq!(p.nodes.len(), 2);
    let i = p.nodes[1].implement.as_ref().unwrap();
    assert!(i.attribute_logic);
    assert_eq!(i.output_id, 2);
    assert_eq!(i.documentation, None);
}

#[test]
fn test_parse_implement_attr_archetypes() {
    let p = plan("- define: Attribute\n  parent: Tao\n  owner_archetype: Tao\n  value_archetype: Form\n- parent: Implement\n  target: Attribute\n  output_id: 2\n  attribute_logic: true\n");
    assert_eq!(p.nodes.len(), 2);
    let i = p.nodes[1].implement.as_ref().unwrap();
    assert!(i.attribute_logic);
    assert_eq!(i.target_owner, s("tao"));
    assert_eq!(i.target_value, s("form"));
    assert_eq!(i.output_id, 2);
    assert_eq!(i.documentation, None);
}

#[test]
fn test_parse_split_up_definition() {
    let p = plan("- define: Attribute\n  parent: Tao\n- name: Attribute\n  owner_archetype: Tao\n  value_archetype: Form\n- parent: Implement\n  target: Attribute\n  output_id: 2\n  attribute_logic: true\n");
    assert_eq!(p.nodes.len(), 2);
    assert_eq!(named(&p.nodes[0]), Some("attribute"));
    assert_eq!(p.nodes[0].parent, s("tao"));
    assert_eq!(p.nodes[0].owner_archetype, s("tao"));
    assert_eq!(p.nodes[0].value_archetype, s("form"));
    let i = p.nodes[1].implement.as_ref().unwrap();
    assert!(i.attribute_logic);
    assert_eq!(i.target_owner, s("tao"));
    assert_eq!(i.target_value, s("form"));
}

#[test]
fn test_parse_define_only() {
    let p = plan("- define: Attribute\n- name: Attribute\n  parent: Tao\n- name: Attribute\n  owner_archetype: Tao\n  value_archetype: Form\n- parent: Implement\n  target: Attribute\n  output_id: 2\n  attribute_logic: true\n");
    assert_eq!(p.nodes.len(), 2);
    assert_eq!(p.nodes[0].parent, s("tao"));
    let i = p.nodes[1].implement.as_ref().unwrap();
    assert_eq!(i.target_owner, s("tao"));
    assert_eq!(i.target_value, s("form"));
    assert_eq!(i.output_id, 2);
}

#[test]
fn test_parse_out_of_order() {
    let p = plan("- name: Attribute\n  parent: Tao\n- define: Attribute\n- name: Attribute\n  owner_archetype: Tao\n  value_archetype: Form\n- parent: Implement\n  target: Attribute\n  output_id: 2\n  attribute_logic: true\n");
    assert_eq!(p.nodes.len(), 2);
    assert_eq!(p.defines, vec!["attribute".to_owned()]);
    assert!(p.nodes[0].newly_defined);
    assert_eq!(p.nodes[0].parent, s("tao"));
    assert_eq!(p.nodes[0].value_archetype, s("form"));
    assert!(p.nodes[1].implement.as_ref().unwrap().attribute_logic);
}

#[test]
fn test_parse_implement_own_module_unmarked() {
    let p = plan("- define: MyType\n  parent: Tao\n- parent: Implement\n  target: MyType\n  output_id: 2\n");
    let i = p.nodes[1].implement.as_ref().unwrap();
    assert_eq!(i.target, "my-type");
    assert!(!i.attribute_logic);
    assert!(!i.force_own_module);
}

#[test]
fn test_parse_implement_own_module_marked() {
    let p = plan("- define: MyType\n  parent: Tao\n- parent: Implement\n  target: MyType\n  output_id: 2\n  force_own_module: true\n");
    let i = p.nodes[1].implement.as_ref().unwrap();
    assert!(!i.attribute_logic);
    assert!(i.force_own_module);
}

#[test]
fn test_parse_multiline_string() {
    let p = plan("- define: Target\n  parent: Attribute\n- parent: Implement\n  target: Target\n  output_id: 2\n  documentation: |-\n    So much to do.\n    So little time.\n");
    let i = p.nodes[1].implement.as_ref().unwrap();
    assert_eq!(i.documentation, s("So much to do.\nSo little time."));
}

#[test]
fn test_parse_multiline_string_multiple_breaks() {
    let p = plan("- define: Target\n  parent: Attribute\n- parent: Implement\n  target: Target\n  output_id: 2\n  documentation: |-\n    So much to do.\n\n    So little time.\n");
    let i = p.nodes[1].implement.as_ref().unwrap();
    assert_eq!(i.documentation, s("So much to do.\n\nSo little time."));
}

#[test]
fn later_keys_win_when_entries_are_merged() {
    let p = plan("- define: X\n  parent: A\n- name: X\n  parent: B\n");
    assert_eq!(p.nodes.len(), 1);
    assert_eq!(p.nodes[0].parent, s("b"));
}

#[test]
fn entries_that_only_name_a_node_do_not_define_it() {
    let p = plan("- name: Tao\n  attributes: []\n");
    assert!(!p.nodes[0].newly_defined);
    assert!(p.nodes[0].attributes.is_empty());
}

#[test]
fn faulty_documents_are_errors() {
    assert!(matches!(parse_yaml_plan("- [unclosed"), Err(PlanError::NotYaml)));
    assert!(matches!(parse_yaml_plan(""), Err(PlanError::NoDocument)));
    assert!(matches!(parse_yaml_plan("a: 1\n"), Err(PlanError::NotASequence)));
    assert!(matches!(parse_yaml_plan("- just text\n"), Err(PlanError::EntryNotAHash)));
    assert!(matches!(parse_yaml_plan("- 1: x\n"), Err(PlanError::KeyNotText)));
    assert!(matches!(
        parse_yaml_plan("- define: X\n  attributes:\n    - [a]\n"),
        Err(PlanError::AttributeNotText)
    ));
}

#[test]
fn implementation_errors_stay_with_their_node() {
    let p = plan("- parent: Implement\n  output_id: 2\n- parent: Implement\n  target: X\n- parent: Implement\n  target: X\n  output_id: 1\n  documentation: 5\n");
    assert!(matches!(p.nodes[0].implement, Err(PlanError::MissingTarget)));
    assert!(matches!(p.nodes[1].implement, Err(PlanError::MissingOutputId)));
    assert!(matches!(p.nodes[2].implement, Err(PlanError::DocumentationNotText)));
    assert!(!p.nodes[2].implement.is_ok());
}

#[test]
fn yaml_loads_into_plain_values() {
    let docs = load_yaml("- a: [1, true, x]\n").unwrap();
    assert_eq!(docs.len(), 1);
    match &docs[0] {
        YamlValue::List(entries) => match &entries[0] {
            YamlValue::Mapping(keys, values) => {
                assert!(matches!(&keys[0], YamlValue::Str(k) if k == "a"));
                match &values[0] {
                    YamlValue::List(items) => {
                        assert!(matches!(items[0], YamlValue::Int(1)));
                        assert!(matches!(items[1], YamlValue::Bool(true)));
                        assert!(matches!(&items[2], YamlValue::Str(x) if x == "x"));
                    }
                    _ => panic!("not a list"),
                }
            }
            _ => panic!("not a hash"),
        },
        _ => panic!("not a list"),
    }
}

#[test]
fn plans_from_values_built_by_hand() {
    let entry = YamlValue::Mapping(
        vec![YamlValue::Str("define".to_owned())],
        vec![YamlValue::Str("NewThing".to_owned())],
    );
    let p = plan_concepts(&vec![YamlValue::List(vec![entry])]).unwrap();
    assert_eq!(p.defines, vec!["new-thing".to_owned()]);
}

#[test]
fn nodes_are_ordered_by_id() {
    assert_eq!(order_by_ids(&vec![30, 10, 20, 10]), vec![1, 3, 2, 0]);
    assert_eq!(order_by_ids(&vec![]), Vec::<usize>::new());
}

#[test]
fn test_yaml_extraction_full() {
    let p = zamm_yang::definition::parse_md_plan("# Let's try this\n\n```yaml\n- name: Target\n  parent: Attribute\n```\n\nWait a second... this is just what we have in the yaml.rs test!\n\n```yml\n- parent: Implement\n  target: Target\n  output_id: 2\n  documentation: |-\n    Howdy, how ya doing?\n\n    I'm doing fine, you?\n```\n").unwrap();
    assert_eq!(p.nodes.len(), 2);
    assert_eq!(p.nodes[1].parent, s("implement"));
    let i = p.nodes[1].implement.as_ref().unwrap();
    assert_eq!(i.target, "target");
    assert_eq!(i.output_id, 2);
    assert_eq!(
        i.documentation,
        s("Howdy, how ya doing?\n\nI'm doing fine, you?")
    );
}

#[test]
fn scalars_that_fail_their_tag_are_ignored_keys() {
    let p = plan("- define: A\n  parent: Tao\n  note: !!int x\n- name: B\n  parent: A\n");
    assert_eq!(p.defines, vec!["a".to_owned()]);
    assert_eq!(p.nodes.len(), 2);
    assert_eq!(named(&p.nodes[0]), Some("a"));
    assert_eq!(p.nodes[0].parent, s("tao"));
    assert_eq!(named(&p.nodes[1]), Some("b"));
    assert_eq!(p.nodes[1].parent, s("a"));
}

#[test]
fn tagged_scalars_load_as_other_values() {
    let docs = load_yaml("- !!int x\n- 3\n").unwrap();
    match &docs[0] {
        YamlValue::List(items) => {
            assert_eq!(items.len(), 2);
            assert!(matches!(items[0], YamlValue::Other));
            assert!(matches!(items[1], YamlValue::Int(3)));
        }
        _ => panic!("not a list"),
    }
}

#[test]
fn spread_out_entries_plan_as_one() {
    let whole = plan("- define: Attribute\n  parent: Tao\n  owner_archetype: Tao\n  value_archetype: Form\n- parent: Implement\n  target: Attribute\n  output_id: 2\n  attribute_logic: true\n");
    let spread = plan("- name: Attribute\n  value_archetype: Form\n- define: Attribute\n- name: Attribute\n  parent: Tao\n  owner_archetype: Tao\n- parent: Implement\n  target: Attribute\n  output_id: 2\n  attribute_logic: true\n");
    assert_eq!(whole.defines, spread.defines);
    assert_eq!(whole.nodes.len(), spread.nodes.len());
    for (a, b) in whole.nodes.iter().zip(spread.nodes.iter()) {
        assert_eq!(named(a), named(b));
        assert_eq!(a.newly_defined, b.newly_defined);
        assert_eq!(a.parent, b.parent);
        assert_eq!(a.attributes, b.attributes);
        assert_eq!(a.owner_archetype, b.owner_archetype);
        assert_eq!(a.value_archetype, b.value_archetype);
        match (&a.implement, &b.implement) {
            (Ok(x), Ok(y)) => {
                assert_eq!(x.target, y.target);
                assert_eq!(x.attribute_logic, y.attribute_logic);
                assert_eq!(x.force_own_module, y.force_own_module);
                assert_eq!(x.output_id, y.output_id);
                assert_eq!(x.documentation, y.documentation);
                assert_eq!(x.target_in_document, y.target_in_document);
                assert_eq!(x.target_owner, y.target_owner);
                assert_eq!(x.target_value, y.target_value);
            }
            (Err(x), Err(y)) => assert_eq!(x, y),
            _ => panic!("one plan can implement and the other cannot"),
        }
    }
    assert!(matches!(whole.nodes[1].node, NodeKey::Anonymous(1)));
    assert!(matches!(spread.nodes[1].node, NodeKey::Anonymous(3)));
}
