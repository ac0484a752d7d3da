//! The template for the implementation that every archetype has.
use vstd::prelude::*;
use super::tao::{atom_with_import, trait_impl_view, TaoConfig};
use crate::file::{FileFragment, FileV};
use crate::fragment::{AppendedV, AtomicV, Fragment, FragmentV, ImplV, ImplementationFragment, StructConfig};

verus! {

/// Config values at the time of Archetype code generation.
pub struct ArchetypeFormatConfig {
    /// Regular concept config.
    pub tao_cfg: TaoConfig,
    /// The infra archetype of this archetype.
    pub infra_archetype: StructConfig,
}

impl Default for ArchetypeFormatConfig {
    /// The default concept config, with an empty infra archetype.
    fn default() -> (res: Self)
        ensures
            res.infra_archetype.name@.len() == 0,
            res.infra_archetype.import@.len() == 0,
    {
        ArchetypeFormatConfig { tao_cfg: TaoConfig::default(), infra_archetype: StructConfig::empty() }
    }
}

/// The `ArchetypeFormTrait` implementation of an archetype.
pub open spec fn archetype_impl_view(cfg: ArchetypeFormatConfig) -> ImplV {
    trait_impl_view(
        "zamm_yin::tao::archetype::ArchetypeFormTrait"@,
        cfg.tao_cfg.this@,
        seq![
            FragmentV::Atomic(
                AtomicV {
                    imports: seq![cfg.infra_archetype.import@],
                    atom: "type SubjectForm = "@ + cfg.infra_archetype.name@ + ";"@,
                },
            ),
        ],
    )
}

/// Get the `ArchetypeFormTrait` implementation of an archetype.
pub fn archetype_impl_fragment(cfg: &ArchetypeFormatConfig) -> (res: ImplementationFragment)
    ensures
        res@ == archetype_impl_view(*cfg),
{
    let mut implementation = ImplementationFragment::new_trait_impl(
        StructConfig::new("zamm_yin::tao::archetype::ArchetypeFormTrait".to_owned()),
        cfg.tao_cfg.this.duplicate(),
    );
    implementation.mark_same_file_as_struct();
    let mut code = "type SubjectForm = ".to_owned();
    code.append(cfg.infra_archetype.name.as_str());
    code.append(";");
    implementation.append(
        Fragment::Atomic(atom_with_import(cfg.infra_archetype.import.as_str(), code.as_str())),
    );
    assert(implementation@ =~~= archetype_impl_view(*cfg));
    implementation
}

/// Add the archetype fragment to a file.
pub fn add_archetype_fragment(cfg: &ArchetypeFormatConfig, file: &mut FileFragment)
    ensures
        final(file)@ == (FileV {
            contents: AppendedV {
                items: old(file)@.contents.items.push(FragmentV::Implementation(archetype_impl_view(*cfg))),
                ..old(file)@.contents
            },
            ..old(file)@
        }),
{
    file.append(Fragment::Implementation(archetype_impl_fragment(cfg)));
}

} // verus!
