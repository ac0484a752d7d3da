//! The inputs of the intermediate program that generates the final code: the lines of its main
//! function, the imports they need, and its Cargo manifest.
use vstd::prelude::*;
use crate::construct::block_sep;
use crate::file::{file_code, FileFragment, FileV};
use crate::fragment::{
    AppendedV, AtomicFragment, AtomicV, Fragment, FragmentV, FunctionFragment, FunctionV,
    ModuleFragment, ModuleV,
};
use crate::layout::{lemma_all_renderable, renderable, CODE_WIDTH};
use crate::text::{
    chars_of, has_prefix, join, join_strings, replace_char, replace_char_in, split_char,
    split_lines, starts_with, string_from_range, strings_view, trim, trim_str,
};

verus! {

/// The code of the main function of the intermediate program.
#[derive(Debug, PartialEq, Eq)]
pub struct MainConfig {
    /// Imports used by the lines.
    pub imports: Vec<String>,
    /// Lines of code of the main function.
    pub lines: Vec<String>,
}

/// Whether a line is a `use` declaration.
pub open spec fn is_use_line(l: Seq<char>) -> bool {
    starts_with(l, "use "@)
}

/// The path that a `use` line imports: the line without `use ` and its last character.
pub open spec fn used_path(l: Seq<char>) -> Seq<char> {
    l.subrange(4, l.len() - 1)
}

/// The imports that the `use` lines of a text declare, in order.
pub open spec fn separated_imports(code: Seq<char>) -> Seq<Seq<char>> {
    split_char(code, '\n').filter(|l: Seq<char>| is_use_line(l)).map_values(
        |l: Seq<char>| used_path(l),
    )
}

/// The lines of a text that are neither `use` lines nor empty, in order.
pub open spec fn code_lines(code: Seq<char>) -> Seq<Seq<char>> {
    split_char(code, '\n').filter(|l: Seq<char>| !is_use_line(l) && l.len() > 0)
}

/// The other lines joined together into one piece, which keeps their indentation, or nothing
/// when there are none.
pub open spec fn separated_lines(code: Seq<char>) -> Seq<Seq<char>> {
    if code_lines(code).len() > 0 {
        seq![join(code_lines(code), "\n"@)]
    } else {
        Seq::empty()
    }
}

/// Whether every `use` line of the text has at least one character after `use `.
pub open spec fn use_lines_complete(code: Seq<char>) -> bool {
    forall|i: int|
        0 <= i < split_char(code, '\n').len() && is_use_line(#[trigger] split_char(code, '\n')[i])
            ==> split_char(code, '\n')[i].len() >= 5
}

/// Separate the imports embedded in code from the rest of it, as `rustdoc` does.
pub fn separate_imports(code: &str) -> (res: MainConfig)
    requires
        use_lines_complete(code@),
    ensures
        strings_view(res.imports@) == separated_imports(code@),
        strings_view(res.lines@) == separated_lines(code@),
{
    let all = split_lines(code);
    let ghost lv = strings_view(all@);
    let mut imports: Vec<String> = Vec::new();
    let mut lines: Vec<String> = Vec::new();
    let mut i: usize = 0;
    while i < all.len()
        invariant
            i <= all.len(),
            lv == strings_view(all@),
            lv == split_char(code@, '\n'),
            use_lines_complete(code@),
            strings_view(imports@) == lv.take(i as int).filter(|l: Seq<char>| is_use_line(l)).map_values(
                |l: Seq<char>| used_path(l),
            ),
            strings_view(lines@) == lv.take(i as int).filter(
                |l: Seq<char>| !is_use_line(l) && l.len() > 0,
            ),
        decreases all.len() - i,
    {
        proof {
            reveal(Seq::filter);
            assert(lv.take(i + 1).drop_last() == lv.take(i as int));
            assert(lv.take(i + 1).last() == lv[i as int]);
        }
        let line = all[i].as_str();
        if has_prefix(line, "use ") {
            let cs = crate::text::chars_of(line);
            assert(lv[i as int].len() >= 5);
            let path = crate::text::string_from_range(&cs, 4, cs.len() - 1);
            imports.push(path);
            proof {
                assert(strings_view(imports@) =~= lv.take(i as int).filter(
                    |l: Seq<char>| is_use_line(l),
                ).map_values(|l: Seq<char>| used_path(l)).push(used_path(lv[i as int])));
            }
        } else if !line.is_empty() {
            lines.push(all[i].clone());
            proof {
                assert(strings_view(lines@) =~= lv.take(i as int).filter(
                    |l: Seq<char>| !is_use_line(l) && l.len() > 0,
                ).push(lv[i as int]));
            }
        }
        i = i + 1;
    }
    proof {
        assert(lv.take(all.len() as int) == lv);
    }
    let mut combined: Vec<String> = Vec::new();
    if lines.len() > 0 {
        combined.push(join_strings(&lines, "\n"));
    }
    proof {
        assert(strings_view(combined@) =~= separated_lines(code@));
    }
    MainConfig { imports, lines: combined }
}

/// The version of Yang that the intermediate program uses when no local copy is given.
pub open spec fn yang_build_version() -> Seq<char> {
    "\"0.0.12\""@
}

/// How the intermediate program depends on Yang: on a local copy at the given directory, its
/// backslashes turned into slashes, or on the released version.
pub open spec fn yang_dependency(yang_dev_dir: Option<Seq<char>>) -> Seq<char> {
    match yang_dev_dir {
        Some(dir) => replace_char("{path = \""@ + dir + "\"}"@, '\\', '/'),
        None => yang_build_version(),
    }
}

/// The Cargo manifest of the intermediate program.
pub open spec fn toml_text(yang_dev_dir: Option<Seq<char>>) -> Seq<char> {
    "[package]\nname = \"intermediate-code-generator\"\nversion = \"1.0.0\"\nedition = \"2018\"\n\n[dependencies]\nzamm_yin = \"0.0.13\"\nzamm_yang = "@
        + yang_dependency(yang_dev_dir) + "\n"@
}

/// File contents for the Cargo manifest of the intermediate program, which depends on the
/// local copy of Yang at `yang_dev_dir` if one is given.
pub fn toml_code(yang_dev_dir: Option<&str>) -> (res: String)
    ensures
        res@ == toml_text(match yang_dev_dir {
            Some(d) => Some(d@),
            None => None,
        }),
{
    let version = match yang_dev_dir {
        Some(dir) => {
            let mut raw = "{path = \"".to_owned();
            raw.append(dir);
            raw.append("\"}");
            replace_char_in(raw.as_str(), '\\', '/')
        },
        None => "\"0.0.12\"".to_owned(),
    };
    let mut res = "[package]\nname = \"intermediate-code-generator\"\nversion = \"1.0.0\"\nedition = \"2018\"\n\n[dependencies]\nzamm_yin = \"0.0.13\"\nzamm_yang = ".to_owned();
    res.append(version.as_str());
    res.append("\n");
    res
}

/// Settings of a code generation run.
#[derive(Debug, Clone, Copy, PartialEq, Eq, Structural)]
pub struct CodegenConfig {
    /// Whether every generated file gets a comment saying that it was generated.
    pub comment_autogen: bool,
    /// Whether generated code is marked to be skipped by rustfmt where that is needed.
    pub add_rustfmt_attributes: bool,
    /// Whether Cargo is told to watch the generated files.
    pub track_autogen: bool,
    /// Whether the code is generated for Yin rather than for a crate that uses it.
    pub yin: bool,
    /// Whether this is a release build.
    pub release: bool,
}

/// The settings of a build from its command-line values: whether to comment generated files
/// (`true` when not given), whether to track them, and whether the code is for Yin. `None`
/// when the comment setting is neither `true` nor `false`.
pub fn build_codegen_config(comment_autogen: Option<&str>, track_autogen: bool, yin: bool) -> (res:
    Option<CodegenConfig>)
    ensures
        res == match comment_autogen {
            None => Some(
                CodegenConfig {
                    comment_autogen: true,
                    add_rustfmt_attributes: true,
                    track_autogen,
                    yin,
                    release: false,
                },
            ),
            Some(c) => if c@ == "true"@ || c@ == "false"@ {
                Some(
                    CodegenConfig {
                        comment_autogen: c@ == "true"@,
                        add_rustfmt_attributes: true,
                        track_autogen,
                        yin,
                        release: false,
                    },
                )
            } else {
                None
            },
        },
{
    let comment = match comment_autogen {
        None => true,
        Some(c) => {
            let given = c.to_owned();
            let yes = "true".to_owned();
            let no = "false".to_owned();
            if given.eq(&yes) {
                true
            } else if given.eq(&no) {
                false
            } else {
                return None;
            }
        },
    };
    Some(
        CodegenConfig {
            comment_autogen: comment,
            add_rustfmt_attributes: true,
            track_autogen,
            yin,
            release: false,
        },
    )
}

/// A boolean written as Rust source.
pub open spec fn bool_text(b: bool) -> Seq<char> {
    if b {
        "true"@
    } else {
        "false"@
    }
}

/// The statement that defines `codegen_cfg` in the intermediate program.
pub open spec fn codegen_cfg_text(cfg: CodegenConfig) -> Seq<char> {
    "let codegen_cfg = CodegenConfig {\n    comment_autogen: "@ + bool_text(cfg.comment_autogen)
        + ",\n    add_rustfmt_attributes: "@ + bool_text(cfg.add_rustfmt_attributes)
        + ",\n    track_autogen: "@ + bool_text(cfg.track_autogen) + ",\n    yin: "@ + bool_text(
        cfg.yin,
    ) + ",\n    release: "@ + bool_text(cfg.release) + ",\n};\n"@
}

/// The statements that load the knowledge base, run the literate Rust code of the input, and
/// handle every implementation it asked for.
pub open spec fn kb_init_text(literate_rust_code: Seq<char>) -> Seq<char> {
    "initialize_kb();\n// ------------------------ START OF LITERATE RUST -------------------------\n"@
        + trim(literate_rust_code)
        + "\n// -------------------------- END OF LITERATE RUST -------------------------\nhandle_all_implementations(&codegen_cfg);\n"@
}

/// The imports that the main function of the intermediate program needs.
pub open spec fn intermediate_imports() -> Seq<Seq<char>> {
    seq![
        "zamm_yin::tao::Tao"@,
        "zamm_yin::tao::archetype::ArchetypeTrait"@,
        "zamm_yin::tao::archetype::ArchetypeFormTrait"@,
        "zamm_yin::tao::archetype::AttributeArchetype"@,
        "zamm_yin::tao::form::FormTrait"@,
        "zamm_yin::node_wrappers::CommonNodeTrait"@,
        "zamm_yang::codegen::CodegenConfig"@,
        "zamm_yang::tao::callbacks::handle_all_implementations"@,
        "zamm_yang::tao::initialize_kb"@,
        "zamm_yang::tao::Implement"@,
        "zamm_yang::tao::ImplementConfig"@,
        "zamm_yang::tao::archetype::CodegenFlags"@,
        "zamm_yang::tao::form::DefinedMarker"@,
        "zamm_yang::tao::archetype::CreateImplementation"@,
        "zamm_yang::define"@,
        "zamm_yang::helper::aa"@,
    ]
}

/// The main function of the intermediate program that generates the code for the literate Rust
/// code of an input file with the given settings.
pub fn codegen_main_config(cfg: &CodegenConfig, literate_rust_code: &str) -> (res: MainConfig)
    ensures
        strings_view(res.imports@) == intermediate_imports(),
        strings_view(res.lines@) == seq![codegen_cfg_text(*cfg), kb_init_text(literate_rust_code@)],
{
    let mut imports: Vec<String> = Vec::new();
    imports.push("zamm_yin::tao::Tao".to_owned());
    imports.push("zamm_yin::tao::archetype::ArchetypeTrait".to_owned());
    imports.push("zamm_yin::tao::archetype::ArchetypeFormTrait".to_owned());
    imports.push("zamm_yin::tao::archetype::AttributeArchetype".to_owned());
    imports.push("zamm_yin::tao::form::FormTrait".to_owned());
    imports.push("zamm_yin::node_wrappers::CommonNodeTrait".to_owned());
    imports.push("zamm_yang::codegen::CodegenConfig".to_owned());
    imports.push("zamm_yang::tao::callbacks::handle_all_implementations".to_owned());
    imports.push("zamm_yang::tao::initialize_kb".to_owned());
    imports.push("zamm_yang::tao::Implement".to_owned());
    imports.push("zamm_yang::tao::ImplementConfig".to_owned());
    imports.push("zamm_yang::tao::archetype::CodegenFlags".to_owned());
    imports.push("zamm_yang::tao::form::DefinedMarker".to_owned());
    imports.push("zamm_yang::tao::archetype::CreateImplementation".to_owned());
    imports.push("zamm_yang::define".to_owned());
    imports.push("zamm_yang::helper::aa".to_owned());
    let mut define = "let codegen_cfg = CodegenConfig {\n    comment_autogen: ".to_owned();
    define.append(bool_str(cfg.comment_autogen));
    define.append(",\n    add_rustfmt_attributes: ");
    define.append(bool_str(cfg.add_rustfmt_attributes));
    define.append(",\n    track_autogen: ");
    define.append(bool_str(cfg.track_autogen));
    define.append(",\n    yin: ");
    define.append(bool_str(cfg.yin));
    define.append(",\n    release: ");
    define.append(bool_str(cfg.release));
    define.append(",\n};\n");
    let code = trim_str(literate_rust_code);
    let mut init = "initialize_kb();\n// ------------------------ START OF LITERATE RUST -------------------------\n".to_owned();
    init.append(code.as_str());
    init.append("\n// -------------------------- END OF LITERATE RUST -------------------------\nhandle_all_implementations(&codegen_cfg);\n");
    let mut lines: Vec<String> = Vec::new();
    lines.push(define);
    lines.push(init);
    proof {
        assert(strings_view(imports@) =~= intermediate_imports());
        assert(strings_view(lines@) =~= seq![codegen_cfg_text(*cfg), kb_init_text(literate_rust_code@)]);
    }
    MainConfig { imports, lines }
}

/// A boolean written as Rust source.
fn bool_str(b: bool) -> (res: &'static str)
    ensures
        res@ == bool_text(b),
{
    if b {
        "true"
    } else {
        "false"
    }
}

/// The main function of the intermediate program as its file is written: the lines are
/// coalesced into one text first, in case some span several lines, and the `use` lines among
/// them are moved to the imports, after which the given imports follow.
pub fn combined_main_config(cfg: &MainConfig) -> (res: MainConfig)
    requires
        use_lines_complete(join(strings_view(cfg.lines@), "\n"@)),
    ensures
        strings_view(res.imports@) == separated_imports(join(strings_view(cfg.lines@), "\n"@))
            + strings_view(cfg.imports@),
        strings_view(res.lines@) == separated_lines(join(strings_view(cfg.lines@), "\n"@)),
{
    let code = join_strings(&cfg.lines, "\n");
    proof {
        reveal_strlit("\n");
    }
    let mut separated = separate_imports(code.as_str());
    let mut i: usize = 0;
    let ghost start = strings_view(separated.imports@);
    let ghost code_lines = strings_view(separated.lines@);
    assert(start + strings_view(cfg.imports@).take(0) =~= start);
    while i < cfg.imports.len()
        invariant
            i <= cfg.imports.len(),
            strings_view(separated.imports@) == start + strings_view(cfg.imports@).take(i as int),
            strings_view(separated.lines@) == code_lines,
        decreases cfg.imports.len() - i,
    {
        let ghost before = strings_view(separated.imports@);
        separated.imports.push(cfg.imports[i].clone());
        assert(strings_view(separated.imports@) =~= before.push(cfg.imports@[i as int]@));
        assert(strings_view(cfg.imports@).take(i + 1) =~= strings_view(cfg.imports@).take(
            i as int,
        ).push(cfg.imports@[i as int]@));
        i = i + 1;
        assert(strings_view(separated.imports@) =~= start + strings_view(cfg.imports@).take(
            i as int,
        ));
    }
    assert(strings_view(cfg.imports@).take(i as int) =~= strings_view(cfg.imports@));
    separated
}

/// The statements of a main function, each an atomic fragment.
pub open spec fn statement_fragments(lines: Seq<Seq<char>>) -> Seq<FragmentV> {
    lines.map_values(|l: Seq<char>| FragmentV::Atomic(AtomicV { imports: Seq::empty(), atom: l }))
}

/// The file of a program whose main function runs `lines` with `imports` in scope.
pub open spec fn main_file(imports: Seq<Seq<char>>, lines: Seq<Seq<char>>) -> FileV {
    FileV {
        preamble: None,
        contents: AppendedV {
            items: seq![
                FragmentV::Function(
                    FunctionV {
                        name: "main"@,
                        doc: None,
                        public: false,
                        attributes: Seq::empty(),
                        self_reference: None,
                        args: Seq::empty(),
                        return_type: None,
                        imports: imports,
                        content: AppendedV { items: statement_fragments(lines), sep: "\n"@ },
                    },
                ),
            ],
            sep: block_sep(),
        },
        tests: ModuleV { test: true, ..ModuleFragment::fresh_view(Some("tests"@)) },
        self_import: None,
        current_crate: None,
    }
}

/// The code of a program whose main function runs the configured lines with the configured
/// imports.
pub fn code_main(cfg: &MainConfig) -> (res: String)
    ensures
        res@ == file_code(main_file(strings_view(cfg.imports@), strings_view(cfg.lines@))),
{
    let mut main = FunctionFragment::new("main".to_owned());
    let ghost start = main@;
    let mut i: usize = 0;
    assert(strings_view(cfg.imports@).take(0) =~= Seq::<Seq<char>>::empty());
    assert(main@ == (FunctionV { imports: strings_view(cfg.imports@).take(0), ..start }));
    while i < cfg.imports.len()
        invariant
            i <= cfg.imports.len(),
            main@ == (FunctionV { imports: strings_view(cfg.imports@).take(i as int), ..start }),
            start.imports == Seq::<Seq<char>>::empty(),
        decreases cfg.imports.len() - i,
    {
        main.add_import(cfg.imports[i].clone());
        i = i + 1;
        assert(strings_view(cfg.imports@).take(i as int) =~= strings_view(cfg.imports@).take(
            i - 1,
        ).push(cfg.imports@[i - 1]@));
    }
    let ghost with_imports = main@;
    let mut j: usize = 0;
    assert(statement_fragments(strings_view(cfg.lines@).take(0)) =~= Seq::<FragmentV>::empty());
    assert(main@ == (FunctionV {
        content: AppendedV {
            items: statement_fragments(strings_view(cfg.lines@).take(0)),
            ..with_imports.content
        },
        ..with_imports
    }));
    while j < cfg.lines.len()
        invariant
            j <= cfg.lines.len(),
            main@ == (FunctionV {
                content: AppendedV {
                    items: statement_fragments(strings_view(cfg.lines@).take(j as int)),
                    ..with_imports.content
                },
                ..with_imports
            }),
            with_imports.content.items == Seq::<FragmentV>::empty(),
        decreases cfg.lines.len() - j,
    {
        main.append(Fragment::Atomic(AtomicFragment::new(cfg.lines[j].clone())));
        j = j + 1;
        assert(statement_fragments(strings_view(cfg.lines@).take(j as int)) =~= statement_fragments(
            strings_view(cfg.lines@).take(j - 1),
        ).push(FragmentV::Atomic(AtomicV { imports: Seq::empty(), atom: cfg.lines@[j - 1]@ })));
    }
    proof {
        reveal_strlit("main");
        reveal_strlit("\n");
        assert(strings_view(cfg.imports@).take(i as int) =~= strings_view(cfg.imports@));
        assert(strings_view(cfg.lines@).take(j as int) =~= strings_view(cfg.lines@));
    }
    let mut file = FileFragment::new();
    file.append(Fragment::Function(main));
    proof {
        let items = file@.contents.items;
        let fun_items = statement_fragments(strings_view(cfg.lines@));
        assert forall|k: int| 0 <= k < fun_items.len() implies #[trigger] renderable(
            fun_items[k],
            CODE_WIDTH - 4,
        ) by {}
        lemma_all_renderable(fun_items, CODE_WIDTH - 4);
        assert forall|k: int| 0 <= k < items.len() implies #[trigger] renderable(
            items[k],
            CODE_WIDTH as int,
        ) by {}
        lemma_all_renderable(items, CODE_WIDTH as int);
        assert(file@ == main_file(strings_view(cfg.imports@), strings_view(cfg.lines@)));
    }
    file.generate_code()
}

} // verus!
