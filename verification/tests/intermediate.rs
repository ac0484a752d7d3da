use zamm_yang::intermediate::{
    build_codegen_config, code_main, codegen_main_config, combined_main_config, separate_imports,
    toml_code, CodegenConfig, MainConfig,
};
use zamm_yang::release::{release_branch, release_commit_message, release_version};

#[test]
fn test_separate_imports_empty() {
    assert_eq!(
        separate_imports(""),
        MainConfig {
            imports: vec![],
            lines: vec![],
        }
    );
}

#[test]
fn test_separate_imports_no_imports() {
    assert_eq!(
        separate_imports("let x = 1;\nlet y = x + 1;"),
        MainConfig {
            imports: vec![],
            lines: vec!["let x = 1;\nlet y = x + 1;".to_owned()],
        }
    );
}

#[test]
fn test_separate_imports_imports_only() {
    assert_eq!(
        separate_imports("use std::rc::Rc;\nuse crate::my::Struct;"),
        MainConfig {
            imports: vec!["std::rc::Rc".to_owned(), "crate::my::Struct".to_owned()],
            lines: vec![],
        }
    );
}

#[test]
fn test_separate_imports_subsequent() {
    assert_eq!(
        separate_imports("use std::rc::Rc;\nuse crate::my::Struct;\n\nlet x = 1;\nlet y = x + 1;"),
        MainConfig {
            imports: vec!["std::rc::Rc".to_owned(), "crate::my::Struct".to_owned()],
            lines: vec!["let x = 1;\nlet y = x + 1;".to_owned()],
        }
    );
}

#[test]
fn test_separate_imports_mixed() {
    assert_eq!(
        separate_imports("use std::rc::Rc;\n\nlet x = 1;\nuse crate::my::Struct;\nlet y = x + 1;"),
        MainConfig {
            imports: vec!["std::rc::Rc".to_owned(), "crate::my::Struct".to_owned()],
            lines: vec!["let x = 1;\nlet y = x + 1;".to_owned()],
        }
    );
}

#[test]
fn separate_imports_keeps_indentation_of_lines() {
    assert_eq!(
        separate_imports("if x {\n    use_it();\n}"),
        MainConfig {
            imports: vec![],
            lines: vec!["if x {\n    use_it();\n}".to_owned()],
        }
    );
}

#[test]
fn toml_for_released_yang() {
    assert_eq!(
        toml_code(None),
        "[package]\nname = \"intermediate-code-generator\"\nversion = \"1.0.0\"\nedition = \"2018\"\n\n[dependencies]\nzamm_yin = \"0.0.13\"\nzamm_yang = \"0.0.12\"\n"
    );
}

#[test]
fn toml_for_local_yang_uses_forward_slashes() {
    assert_eq!(
        toml_code(Some("C:\\dev\\yang")),
        "[package]\nname = \"intermediate-code-generator\"\nversion = \"1.0.0\"\nedition = \"2018\"\n\n[dependencies]\nzamm_yin = \"0.0.13\"\nzamm_yang = {path = \"C:/dev/yang\"}\n"
    );
}

#[test]
fn build_config_defaults_to_commenting_generated_files() {
    assert_eq!(
        build_codegen_config(None, true, false),
        Some(CodegenConfig {
            comment_autogen: true,
            add_rustfmt_attributes: true,
            track_autogen: true,
            yin: false,
            release: false,
        })
    );
}

#[test]
fn build_config_reads_the_comment_setting() {
    let cfg = build_codegen_config(Some("false"), false, true).unwrap();
    assert!(!cfg.comment_autogen);
    assert!(cfg.yin);
    assert!(!cfg.release);
}

#[test]
fn build_config_rejects_a_setting_that_is_not_a_boolean() {
    assert_eq!(build_codegen_config(Some("yes"), false, false), None);
}

#[test]
fn intermediate_main_runs_the_literate_code() {
    let cfg = CodegenConfig {
        comment_autogen: false,
        add_rustfmt_attributes: true,
        track_autogen: false,
        yin: true,
        release: true,
    };
    let main = codegen_main_config(&cfg, "\n  define!(x);\n");
    assert_eq!(main.imports.len(), 16);
    assert_eq!(main.imports[0], "zamm_yin::tao::Tao");
    assert_eq!(main.imports[15], "zamm_yang::helper::aa");
    assert_eq!(
        main.lines,
        vec![
            "let codegen_cfg = CodegenConfig {\n    comment_autogen: false,\n    add_rustfmt_attributes: true,\n    track_autogen: false,\n    yin: true,\n    release: true,\n};\n".to_owned(),
            "initialize_kb();\n// ------------------------ START OF LITERATE RUST -------------------------\ndefine!(x);\n// -------------------------- END OF LITERATE RUST -------------------------\nhandle_all_implementations(&codegen_cfg);\n".to_owned(),
        ]
    );
}

#[test]
fn combined_config_moves_use_lines_to_imports() {
    let cfg = MainConfig {
        imports: vec!["a::B".to_owned()],
        lines: vec!["use x::Y;\nlet a = 1;".to_owned(), "let b = 2;".to_owned()],
    };
    assert_eq!(
        combined_main_config(&cfg),
        MainConfig {
            imports: vec!["x::Y".to_owned(), "a::B".to_owned()],
            lines: vec!["let a = 1;\nlet b = 2;".to_owned()],
        }
    );
}

#[test]
fn main_code_wraps_lines_in_a_main_function() {
    let cfg = MainConfig {
        imports: vec!["std::rc::Rc".to_owned()],
        lines: vec!["let a = 1;".to_owned(), "let b = 2;".to_owned()],
    };
    assert_eq!(
        code_main(&cfg),
        "use std::rc::Rc;\n\nfn main() {\n    let a = 1;\n    let b = 2;\n}\n"
    );
}

#[test]
fn release_version_drops_the_prerelease_tag() {
    assert_eq!(release_version("0.1.2-beta.1"), Some("0.1.2".to_owned()));
    assert_eq!(release_version("0.1.2"), None);
    assert_eq!(release_version("-alpha"), Some("".to_owned()));
}

#[test]
fn release_branch_and_message_name_the_version() {
    assert_eq!(release_branch("0.1.2"), "release/v0.1.2");
    assert_eq!(release_commit_message("0.1.2"), "Creating release v0.1.2");
}
