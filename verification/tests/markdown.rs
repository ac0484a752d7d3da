use zamm_yang::markdown::{
    extract_rust, extract_yaml, fenced_code_from_events, yaml_from_events, MdEvent,
};

#[test]
fn test_yaml_extraction_nothing() {
    assert_eq!(
        extract_yaml("# Some document\n\nNo code in here.\n"),
        "".to_owned()
    );
}

#[test]
fn test_yaml_extraction_one_block() {
    assert_eq!(
        extract_yaml("# Some document\n\n```yaml\n- name: Yin\n```\n\nAha! We have some code.\n"),
        "- name: Yin\n"
    );
}

#[test]
fn test_yaml_extraction_multiple_blocks() {
    assert_eq!(
        extract_yaml("# Some document\n\n```yaml\n- name: Yin\n```\n\nAha! We have some code. More?\n\n## Yes more\n\n```json\n{\"very\": \"devious\"}\n```\n\nWill it skip that?\n\n```\nAnd this too?\n```\n\n```yml\n- name: Yang\n  parent: Tao\n```\n"),
        "- name: Yin\n- name: Yang\n  parent: Tao\n"
    );
}

#[test]
fn test_yaml_extraction_multiline_string() {
    assert_eq!(
        extract_yaml("# O rly?\n\n```yml\n- name: Yang\n  documentation: |-\n    Like, here's one line.\n\n    And now here's another.\n```\n"),
        "- name: Yang\n  documentation: |-\n    Like, here's one line.\n\n    And now here's another.\n"
    );
}

#[test]
fn test_yaml_extraction_multiline_string_as_quote() {
    assert_eq!(
        extract_yaml("# O rly?\n\n```yml\n- name: Yang\n  documentation: |-\n```\n\n> Like, here's one line.\n> Part of the same line.\n>\n> And now here's another.\n"),
        "- name: Yang\n  documentation: |-\n    Like, here's one line.\n    Part of the same line.\n\n    And now here's another.\n"
    );
}

#[test]
fn test_yaml_extraction_regular_text_after_quote() {
    assert_eq!(
        extract_yaml("# O rly?\n\n```yml\n- name: Yang\n  documentation: |-\n```\n\n> Like, here's one line.\n> Part of the same line.\n>\n> And now here's another.\n\nRegular text, please ignore.\n"),
        "- name: Yang\n  documentation: |-\n    Like, here's one line.\n    Part of the same line.\n\n    And now here's another.\n"
    );
}

fn text(s: &str) -> MdEvent {
    MdEvent::Text(s.to_owned())
}

fn fence(s: &str) -> MdEvent {
    MdEvent::FenceStart(s.to_owned())
}

#[test]
fn events_outside_yaml_blocks_are_ignored() {
    let events = vec![
        text("intro"),
        MdEvent::ParagraphEnd,
        fence("json"),
        text("{}\n"),
        MdEvent::CodeBlockEnd,
        MdEvent::Other,
    ];
    assert_eq!(yaml_from_events(&events), "");
}

#[test]
fn yaml_blocks_are_concatenated_in_order() {
    let events = vec![
        fence("yml"),
        text("- a\n"),
        MdEvent::CodeBlockEnd,
        fence("rust"),
        text("fn main() {}\n"),
        MdEvent::CodeBlockEnd,
        fence("yaml"),
        text("- b\n"),
        MdEvent::CodeBlockEnd,
    ];
    assert_eq!(yaml_from_events(&events), "- a\n- b\n");
}

#[test]
fn quoted_lines_follow_the_indentation_of_the_open_block_string() {
    let events = vec![
        fence("yaml"),
        text("- name: X\n"),
        text("      doc: |-   \n"),
        MdEvent::CodeBlockEnd,
        text("first"),
        MdEvent::Other,
        text("second"),
        MdEvent::ParagraphEnd,
        MdEvent::BlockQuoteEnd,
        text("ignored"),
        MdEvent::ParagraphEnd,
    ];
    assert_eq!(
        yaml_from_events(&events),
        "- name: X\n      doc: |-   \n        first\n        second\n"
    );
}

#[test]
fn a_doubled_final_newline_is_made_single() {
    let events = vec![fence("yaml"), text("- a\n\n"), MdEvent::CodeBlockEnd];
    assert_eq!(yaml_from_events(&events), "- a\n");
}

#[test]
fn an_unlabelled_fence_is_not_yaml() {
    let events = vec![fence(""), text("- a\n"), MdEvent::CodeBlockEnd];
    assert_eq!(yaml_from_events(&events), "");
}

#[test]
fn rust_blocks_are_extracted_in_order() {
    let doc = "# Doc\n\n```rust\nlet a = 1;\n```\n\nText.\n\n```yaml\n- name: X\n```\n\n```rust\nlet b = 2;\n```\n";
    assert_eq!(extract_rust(doc), "let a = 1;\nlet b = 2;\n");
}

#[test]
fn fenced_code_keeps_only_the_requested_language() {
    let events = vec![
        fence("rust"),
        text("a();\n"),
        MdEvent::CodeBlockEnd,
        text("prose"),
        fence("toml"),
        text("x = 1\n"),
        MdEvent::CodeBlockEnd,
    ];
    assert_eq!(fenced_code_from_events(&events, "rust"), "a();\n");
    assert_eq!(fenced_code_from_events(&events, "toml"), "x = 1\n");
}
