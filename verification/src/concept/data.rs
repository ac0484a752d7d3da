//! The template for the accessors of a concept that holds a Rust value.
use vstd::prelude::*;
use super::tao::TaoConfig;
use crate::text::{contains_seq, lemma_contains_middle};
use crate::file::{FileFragment, FileV};
use crate::fragment::{AppendedV, AtomicFragment, AtomicV, Fragment, FragmentV, ModuleV};

verus! {

/// Config values at the time of data concept code generation.
pub struct DataFormatConfig {
    /// Regular concept config.
    pub tao_cfg: TaoConfig,
    /// Rust primitive that this concept represents.
    pub rust_primitive_name: String,
    /// Rust code representation of the default value of this concept.
    pub default_value: String,
}

impl Default for DataFormatConfig {
    /// The default concept config, with an empty primitive and default value.
    fn default() -> (res: Self)
        ensures
            res.rust_primitive_name@.len() == 0,
            res.default_value@.len() == 0,
    {
        DataFormatConfig {
            tao_cfg: TaoConfig::default(),
            rust_primitive_name: String::new(),
            default_value: String::new(),
        }
    }
}

/// The accessors of the concept's value.
pub open spec fn data_text(cfg: DataFormatConfig) -> Seq<char> {
    "impl "@ + cfg.tao_cfg.this.name@ + " {\n    /// Set "@ + cfg.rust_primitive_name@ + " value for this concept.\n    pub fn set_value(&mut self, value: "@ + cfg.rust_primitive_name@ + ") {\n        self.essence_mut()\n            .set_value(Rc::new(StrongValue::new(value)));\n    }\n\n    /// Retrieve "@ + cfg.rust_primitive_name@ + "-valued StrongValue.\n    #[allow(clippy::rc_buffer)]\n    pub fn value(&self) -> Option<Rc<"@ + cfg.rust_primitive_name@ + ">> {\n        unwrap_value::<"@ + cfg.rust_primitive_name@ + ">(self.essence().value())\n    }\n}"@
}

/// The accessors of a data concept name its configured primitive type wherever they name the
/// value's type: the setter takes a value of that type, and the getter returns it behind an
/// `Rc` and reads it out of the node as that type.
pub proof fn lemma_data_accessors_typed(cfg: DataFormatConfig)
    ensures
        contains_seq(
            data_view(cfg).atom,
            "pub fn set_value(&mut self, value: "@ + cfg.rust_primitive_name@ + ")"@,
        ),
        contains_seq(
            data_view(cfg).atom,
            "pub fn value(&self) -> Option<Rc<"@ + cfg.rust_primitive_name@
                + ">> {\n        unwrap_value::<"@ + cfg.rust_primitive_name@
                + ">(self.essence().value())"@,
        ),
{
    let name = cfg.tao_cfg.this.name@;
    let p = cfg.rust_primitive_name@;
    let t = data_view(cfg).atom;
    let l0 = "impl "@;
    let l1 = " {\n    /// Set "@;
    let l2 = " value for this concept.\n    pub fn set_value(&mut self, value: "@;
    let l3 = ") {\n        self.essence_mut()\n            .set_value(Rc::new(StrongValue::new(value)));\n    }\n\n    /// Retrieve "@;
    let l4 = "-valued StrongValue.\n    #[allow(clippy::rc_buffer)]\n    pub fn value(&self) -> Option<Rc<"@;
    let l5 = ">> {\n        unwrap_value::<"@;
    let l6 = ">(self.essence().value())\n    }\n}"@;
    assert(t == l0 + name + l1 + p + l2 + p + l3 + p + l4 + p + l5 + p + l6);
    reveal_strlit(" value for this concept.\n    pub fn set_value(&mut self, value: ");
    reveal_strlit(" value for this concept.\n    ");
    reveal_strlit("pub fn set_value(&mut self, value: ");
    reveal_strlit(") {\n        self.essence_mut()\n            .set_value(Rc::new(StrongValue::new(value)));\n    }\n\n    /// Retrieve ");
    reveal_strlit(")");
    reveal_strlit(" {\n        self.essence_mut()\n            .set_value(Rc::new(StrongValue::new(value)));\n    }\n\n    /// Retrieve ");
    let setter = "pub fn set_value(&mut self, value: "@ + p + ")"@;
    let a1 = l0 + name + l1 + p + " value for this concept.\n    "@;
    let c1 = " {\n        self.essence_mut()\n            .set_value(Rc::new(StrongValue::new(value)));\n    }\n\n    /// Retrieve "@ + p + l4 + p + l5 + p + l6;
    assert(l2 =~= " value for this concept.\n    "@ + "pub fn set_value(&mut self, value: "@);
    assert(l3 =~= ")"@ + " {\n        self.essence_mut()\n            .set_value(Rc::new(StrongValue::new(value)));\n    }\n\n    /// Retrieve "@);
    assert(t =~= a1 + setter + c1);
    lemma_contains_middle(a1, setter, c1);
    reveal_strlit("-valued StrongValue.\n    #[allow(clippy::rc_buffer)]\n    pub fn value(&self) -> Option<Rc<");
    reveal_strlit("-valued StrongValue.\n    #[allow(clippy::rc_buffer)]\n    ");
    reveal_strlit("pub fn value(&self) -> Option<Rc<");
    reveal_strlit(">(self.essence().value())\n    }\n}");
    reveal_strlit(">(self.essence().value())");
    reveal_strlit("\n    }\n}");
    let getter = "pub fn value(&self) -> Option<Rc<"@ + p + ">> {\n        unwrap_value::<"@ + p
        + ">(self.essence().value())"@;
    let a2 = l0 + name + l1 + p + l2 + p + l3 + p
        + "-valued StrongValue.\n    #[allow(clippy::rc_buffer)]\n    "@;
    let c2 = "\n    }\n}"@;
    assert(l4 =~= "-valued StrongValue.\n    #[allow(clippy::rc_buffer)]\n    "@
        + "pub fn value(&self) -> Option<Rc<"@);
    assert(l6 =~= ">(self.essence().value())"@ + "\n    }\n}"@);
    assert(t =~= a2 + getter + c2);
    lemma_contains_middle(a2, getter, c2);
}

/// The fragment of the accessors of the concept's value.
pub open spec fn data_view(cfg: DataFormatConfig) -> AtomicV {
    AtomicV {
        imports: seq![
            "zamm_yin::node_wrappers::BaseNodeTrait"@,
            "zamm_yin::graph::value_wrappers::StrongValue"@,
            "zamm_yin::graph::value_wrappers::unwrap_value"@,
            "std::rc::Rc"@,
        ],
        atom: data_text(cfg),
    }
}

/// Get the fragment of the accessors of the concept's value.
pub fn data_concept_fragment(cfg: &DataFormatConfig) -> (res: AtomicFragment)
    ensures
        res@ == data_view(*cfg),
{
    let mut code = "impl ".to_owned();
    code.append(cfg.tao_cfg.this.name.as_str());
    code.append(" {\n    /// Set ");
    code.append(cfg.rust_primitive_name.as_str());
    code.append(" value for this concept.\n    pub fn set_value(&mut self, value: ");
    code.append(cfg.rust_primitive_name.as_str());
    code.append(") {\n        self.essence_mut()\n            .set_value(Rc::new(StrongValue::new(value)));\n    }\n\n    /// Retrieve ");
    code.append(cfg.rust_primitive_name.as_str());
    code.append("-valued StrongValue.\n    #[allow(clippy::rc_buffer)]\n    pub fn value(&self) -> Option<Rc<");
    code.append(cfg.rust_primitive_name.as_str());
    code.append(">> {\n        unwrap_value::<");
    code.append(cfg.rust_primitive_name.as_str());
    code.append(">(self.essence().value())\n    }\n}");
    assert(code@ =~= data_text(*cfg));
    let mut imports: Vec<String> = Vec::new();
    imports.push("zamm_yin::node_wrappers::BaseNodeTrait".to_owned());
    imports.push("zamm_yin::graph::value_wrappers::StrongValue".to_owned());
    imports.push("zamm_yin::graph::value_wrappers::unwrap_value".to_owned());
    imports.push("std::rc::Rc".to_owned());
    let res = AtomicFragment::with_imports(imports, code);
    assert(res@.imports =~= data_view(*cfg).imports);
    res
}

/// The tests of the concept's value.
pub open spec fn data_tests_text(cfg: DataFormatConfig) -> Seq<char> {
    "#[test]\nfn get_value_none() {\n    initialize_kb();\n    let concept = "@ + cfg.tao_cfg.this.name@ + "::new();\n    assert_eq!(concept.value(), None);\n}\n\n#[test]\nfn get_value_some() {\n    initialize_kb();\n    let mut concept = "@ + cfg.tao_cfg.this.name@ + "::new();\n    concept.set_value("@ + cfg.default_value@ + ");\n    assert_eq!(concept.value(), Some(Rc::new("@ + cfg.default_value@ + ")));\n}"@
}

/// Get the fragment of the tests of the concept's value.
pub fn data_concept_test_fragment(cfg: &DataFormatConfig) -> (res: AtomicFragment)
    ensures
        res@ == (AtomicV { imports: Seq::empty(), atom: data_tests_text(*cfg) }),
{
    let mut code = "#[test]\nfn get_value_none() {\n    initialize_kb();\n    let concept = ".to_owned();
    code.append(cfg.tao_cfg.this.name.as_str());
    code.append("::new();\n    assert_eq!(concept.value(), None);\n}\n\n#[test]\nfn get_value_some() {\n    initialize_kb();\n    let mut concept = ");
    code.append(cfg.tao_cfg.this.name.as_str());
    code.append("::new();\n    concept.set_value(");
    code.append(cfg.default_value.as_str());
    code.append(");\n    assert_eq!(concept.value(), Some(Rc::new(");
    code.append(cfg.default_value.as_str());
    code.append(")));\n}");
    assert(code@ =~= data_tests_text(*cfg));
    AtomicFragment::new(code)
}

/// Add a data concept's fragments to its file.
pub fn add_data_fragments(cfg: &DataFormatConfig, file: &mut FileFragment)
    ensures
        final(file)@ == (FileV {
            contents: AppendedV {
                items: old(file)@.contents.items.push(FragmentV::Atomic(data_view(*cfg))),
                ..old(file)@.contents
            },
            tests: ModuleV {
                content: AppendedV {
                    items: old(file)@.tests.content.items.push(
                        FragmentV::Atomic(AtomicV { imports: Seq::empty(), atom: data_tests_text(*cfg) }),
                    ),
                    ..old(file)@.tests.content
                },
                ..old(file)@.tests
            },
            ..old(file)@
        }),
{
    file.append(Fragment::Atomic(data_concept_fragment(cfg)));
    file.append_test(Fragment::Atomic(data_concept_test_fragment(cfg)));
}

} // verus!
