//! The template for the implementations that every form has.
use vstd::prelude::*;
use super::tao::{atom_with_import, trait_impl_view, TaoConfig};
use crate::file::{FileFragment, FileV};
use crate::layout::{body_of, lemma_append_all_body, then_text, CODE_WIDTH};
use crate::fragment::{
    AppendedV, AtomicV, Fragment, FragmentV, ImplV, ImplementationFragment, StructConfig, StructV,
};

verus! {

/// Config values at the time of Form code generation.
pub struct FormFormatConfig {
    /// Regular concept config.
    pub tao_cfg: TaoConfig,
    /// Meta archetype specifically for this type, if one exists.
    pub meta_archetype: Option<StructConfig>,
    /// All ancestors of the concept.
    pub ancestors: Vec<StructConfig>,
}

impl Default for FormFormatConfig {
    /// The default concept config, without meta archetype or ancestors.
    fn default() -> (res: Self)
        ensures
            res.meta_archetype is None,
            res.ancestors@.len() == 0,
    {
        FormFormatConfig { tao_cfg: TaoConfig::default(), meta_archetype: None, ancestors: Vec::new() }
    }
}

/// The `FormTrait` implementation of a concept.
pub open spec fn form_impl_view(cfg: TaoConfig) -> ImplV {
    trait_impl_view("zamm_yin::tao::form::FormTrait"@, cfg.this@, Seq::empty())
}

/// Get the `FormTrait` implementation of a concept.
pub fn form_impl_fragment(cfg: &TaoConfig) -> (res: ImplementationFragment)
    ensures
        res@ == form_impl_view(*cfg),
{
    let mut implementation = ImplementationFragment::new_trait_impl(
        StructConfig::new("zamm_yin::tao::form::FormTrait".to_owned()),
        cfg.this.duplicate(),
    );
    implementation.mark_same_file_as_struct();
    assert(implementation@ =~~= form_impl_view(*cfg));
    implementation
}

/// The conversion of the concept into one of its ancestors.
pub open spec fn from_text(this_name: Seq<char>, ancestor: StructConfig) -> Seq<char> {
    "fn from(this: "@ + this_name + ") -> "@ + ancestor.name@ + " {\n    "@ + ancestor.name@ + "::from(this.base)\n}"@
}

/// The implementation of `From<this>` for an ancestor.
pub open spec fn ancestor_from_view(this_name: Seq<char>, ancestor: StructConfig) -> ImplV {
    ImplV {
        lifetimes: Seq::empty(),
        trait_cfg: Some(StructV { name: "From<"@ + this_name + ">"@, import: "std::convert::From"@ }),
        struct_cfg: ancestor@,
        same_file_as_trait: false,
        same_file_as_struct: true,
        declaration: crate::fragment::ItemDeclaration::empty_view(),
        content: AppendedV {
            items: seq![
                FragmentV::Atomic(
                    AtomicV { imports: seq![ancestor.import@], atom: from_text(this_name, ancestor) },
                ),
            ],
            sep: crate::construct::block_sep(),
        },
        body_is_content: true,
    }
}

/// Get the implementation of `From<this>` for an ancestor.
pub fn deref_fragment(this_name: &str, ancestor: &StructConfig) -> (res: ImplementationFragment)
    ensures
        res@ == ancestor_from_view(this_name@, *ancestor),
{
    let mut trait_name = "From<".to_owned();
    trait_name.append(this_name);
    trait_name.append(">");
    let mut implementation = ImplementationFragment::new_trait_impl(
        StructConfig { name: trait_name, import: "std::convert::From".to_owned() },
        ancestor.duplicate(),
    );
    let mut code = "fn from(this: ".to_owned();
    code.append(this_name);
    code.append(") -> ");
    code.append(ancestor.name.as_str());
    code.append(" {\n    ");
    code.append(ancestor.name.as_str());
    code.append("::from(this.base)\n}");
    assert(code@ =~= from_text(this_name@, *ancestor));
    implementation.append(Fragment::Atomic(atom_with_import(ancestor.import.as_str(), code.as_str())));
    implementation.mark_same_file_as_struct();
    assert(implementation@.content.items =~~= seq![
        FragmentV::Atomic(
            AtomicV { imports: seq![ancestor.import@], atom: from_text(this_name@, *ancestor) },
        ),
    ]);
    assert(implementation@ =~~= ancestor_from_view(this_name@, *ancestor));
    implementation
}

/// The `FormExtension` implementation of a concept with a meta archetype.
pub open spec fn form_extension_view(cfg: FormFormatConfig) -> ImplV {
    let meta = cfg.meta_archetype.unwrap();
    trait_impl_view(
        "zamm_yin::tao::form::FormExtension"@,
        cfg.tao_cfg.this@,
        seq![
            FragmentV::Atomic(
                AtomicV { imports: seq![meta.import@], atom: "type MetaType = "@ + meta.name@ + ";"@ },
            ),
        ],
    )
}

/// Get the `FormExtension` implementation of a concept with a meta archetype.
pub fn form_extension_fragment(cfg: &FormFormatConfig) -> (res: ImplementationFragment)
    requires
        cfg.meta_archetype is Some,
    ensures
        res@ == form_extension_view(*cfg),
{
    let mut implementation = ImplementationFragment::new_trait_impl(
        StructConfig::new("zamm_yin::tao::form::FormExtension".to_owned()),
        cfg.tao_cfg.this.duplicate(),
    );
    implementation.mark_same_file_as_struct();
    match &cfg.meta_archetype {
        Some(meta) => {
            let mut code = "type MetaType = ".to_owned();
            code.append(meta.name.as_str());
            code.append(";");
            implementation.append(Fragment::Atomic(atom_with_import(meta.import.as_str(), code.as_str())));
        },
        None => {},
    }
    assert(implementation@ =~~= form_extension_view(*cfg));
    implementation
}

/// The fragments that a form adds to its file.
pub open spec fn form_items(cfg: FormFormatConfig) -> Seq<FragmentV> {
    seq![FragmentV::Implementation(form_impl_view(cfg.tao_cfg))] + (if cfg.meta_archetype is Some {
        seq![FragmentV::Implementation(form_extension_view(cfg))]
    } else {
        Seq::empty()
    }) + cfg.ancestors@.map_values(
        |a: StructConfig| FragmentV::Implementation(ancestor_from_view(cfg.tao_cfg.this.name@, a)),
    )
}

/// After the form's items are added to a file, the file's body is its old body followed, with
/// the file's separator between, by the text of the form's items: the `FormTrait`
/// implementation, the `FormExtension` one where there is a meta archetype, then one `From`
/// implementation per ancestor, in order.
pub proof fn lemma_form_body(f: FileV, cfg: FormFormatConfig)
    ensures
        body_of(
            FragmentV::Appended(AppendedV { items: f.contents.items + form_items(cfg), ..f.contents }),
            CODE_WIDTH as int,
        ) == then_text(
            body_of(FragmentV::Appended(f.contents), CODE_WIDTH as int),
            body_of(
                FragmentV::Appended(AppendedV { items: form_items(cfg), ..f.contents }),
                CODE_WIDTH as int,
            ),
            f.contents.sep,
        ),
{
    lemma_append_all_body(f.contents, form_items(cfg), CODE_WIDTH as int);
}

/// Add the form fragments to a file.
pub fn add_form_fragment(cfg: &FormFormatConfig, file: &mut FileFragment)
    ensures
        final(file)@ == (FileV {
            contents: AppendedV {
                items: old(file)@.contents.items + form_items(*cfg),
                ..old(file)@.contents
            },
            ..old(file)@
        }),
{
    let ghost start = file@.contents.items;
    file.append(Fragment::Implementation(form_impl_fragment(&cfg.tao_cfg)));
    if cfg.meta_archetype.is_some() {
        file.append(Fragment::Implementation(form_extension_fragment(cfg)));
    }
    let ghost mid = file@.contents.items;
    let mut i: usize = 0;
    while i < cfg.ancestors.len()
        invariant
            i <= cfg.ancestors.len(),
            file@ == (FileV {
                contents: AppendedV {
                    items: mid + cfg.ancestors@.take(i as int).map_values(
                        |a: StructConfig|
                            FragmentV::Implementation(ancestor_from_view(cfg.tao_cfg.this.name@, a)),
                    ),
                    ..old(file)@.contents
                },
                ..old(file)@
            }),
        decreases cfg.ancestors.len() - i,
    {
        file.append(
            Fragment::Implementation(deref_fragment(cfg.tao_cfg.this.name.as_str(), &cfg.ancestors[i])),
        );
        i = i + 1;
        assert(file@.contents.items =~~= mid + cfg.ancestors@.take(i as int).map_values(
            |a: StructConfig| FragmentV::Implementation(ancestor_from_view(cfg.tao_cfg.this.name@, a)),
        ));
    }
    assert(cfg.ancestors@.take(cfg.ancestors.len() as int) == cfg.ancestors@);
    assert(file@.contents.items =~~= start + form_items(*cfg));
}

} // verus!
