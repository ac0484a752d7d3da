//! The template for the module file of an archetype and its descendants.
use vstd::prelude::*;
use crate::construct::block_sep;
use crate::fragment::{opt_view, AppendedV, ModuleFragment, ModuleV};
use crate::layout::{module_renderable, module_text, CODE_WIDTH};
use crate::naming::{ascii_lowercase, camel_case, snake_case, to_ascii_lowercase, to_camel_case, to_snake_case};
use crate::text::strings_view;

verus! {

/// Config values at the time of Archetype module code generation.
pub struct ArchetypeModuleConfig {
    /// Documentation for the archetype.
    pub doc: Option<String>,
    /// Names of Archetypes to be included directly in this module.
    pub archetype_names: Vec<String>,
    /// Submodules that are not to be accessible outside of this module.
    pub private_submodules: Vec<String>,
    /// Submodules that are to be accessible outside of this module. Usually user-defined ones.
    pub public_submodules: Vec<String>,
    /// Re-exports from this module.
    pub re_exports: Vec<String>,
}

impl Default for ArchetypeModuleConfig {
    /// No documentation, archetypes, submodules or re-exports.
    fn default() -> (res: Self)
        ensures
            res.doc is None,
            res.archetype_names@.len() == 0,
            res.private_submodules@.len() == 0,
            res.public_submodules@.len() == 0,
            res.re_exports@.len() == 0,
    {
        ArchetypeModuleConfig {
            doc: None,
            archetype_names: Vec::new(),
            private_submodules: Vec::new(),
            public_submodules: Vec::new(),
            re_exports: Vec::new(),
        }
    }
}

/// The private submodule that holds the form of an archetype.
pub open spec fn form_module_name(archetype_name: Seq<char>) -> Seq<char> {
    ascii_lowercase(snake_case(archetype_name)) + "_form"@
}

/// A submodule that is only declared, public or not.
pub open spec fn declared_module(name: Seq<char>, public: bool) -> ModuleV {
    ModuleV { public: public, ..ModuleFragment::new_declared_view(name) }
}

/// The module of an archetype and its descendants.
pub open spec fn archetype_module_view(cfg: ArchetypeModuleConfig) -> ModuleV {
    ModuleV {
        name: None,
        doc: opt_view(cfg.doc),
        public: false,
        test: false,
        declare_only: false,
        uses_entire_file: true,
        re_exports: cfg.archetype_names@.map_values(
            |n: String| form_module_name(n@) + "::"@ + camel_case(n@),
        ) + strings_view(cfg.re_exports@),
        submodules: cfg.archetype_names@.map_values(
            |n: String| declared_module(form_module_name(n@), false),
        ) + cfg.private_submodules@.map_values(|n: String| declared_module(n@, false))
            + cfg.public_submodules@.map_values(|n: String| declared_module(n@, true)),
        content: AppendedV { items: Seq::empty(), sep: block_sep() },
    }
}

/// Returns a module that represents an archetype and its descendants.
pub fn archetype_module_fragment(cfg: &ArchetypeModuleConfig) -> (res: ModuleFragment)
    ensures
        res@ == archetype_module_view(*cfg),
{
    let mut module = ModuleFragment::new_file_module();
    match &cfg.doc {
        Some(d) => module.document(d.clone()),
        None => {},
    }
    let ghost start = module@;
    let mut i: usize = 0;
    assert(module@.re_exports =~= cfg.archetype_names@.take(0).map_values(
        |n: String| form_module_name(n@) + "::"@ + camel_case(n@),
    ));
    assert(module@.submodules =~= cfg.archetype_names@.take(0).map_values(
        |n: String| declared_module(form_module_name(n@), false),
    ));
    while i < cfg.archetype_names.len()
        invariant
            i <= cfg.archetype_names.len(),
            module@ == (ModuleV {
                re_exports: cfg.archetype_names@.take(i as int).map_values(
                    |n: String| form_module_name(n@) + "::"@ + camel_case(n@),
                ),
                submodules: cfg.archetype_names@.take(i as int).map_values(
                    |n: String| declared_module(form_module_name(n@), false),
                ),
                ..start
            }),
            start.re_exports.len() == 0,
            start.submodules.len() == 0,
        decreases cfg.archetype_names.len() - i,
    {
        let name = cfg.archetype_names[i].as_str();
        let snake = to_snake_case(name);
        let mut form_mod = to_ascii_lowercase(snake.as_str());
        form_mod.append("_form");
        module.add_submodule(form_mod.clone());
        let mut export = form_mod;
        export.append("::");
        let camel = to_camel_case(name);
        export.append(camel.as_str());
        module.re_export(export);
        i = i + 1;
        assert(module@.re_exports =~= cfg.archetype_names@.take(i as int).map_values(
            |n: String| form_module_name(n@) + "::"@ + camel_case(n@),
        ));
        assert(module@.submodules =~= cfg.archetype_names@.take(i as int).map_values(
            |n: String| declared_module(form_module_name(n@), false),
        ));
    }
    assert(cfg.archetype_names@.take(cfg.archetype_names.len() as int) == cfg.archetype_names@);
    let ghost after_forms = module@;
    let mut j: usize = 0;
    assert(after_forms.submodules =~= after_forms.submodules + cfg.private_submodules@.take(0).map_values(
        |n: String| declared_module(n@, false),
    ));
    while j < cfg.private_submodules.len()
        invariant
            j <= cfg.private_submodules.len(),
            module@ == (ModuleV {
                submodules: after_forms.submodules + cfg.private_submodules@.take(j as int).map_values(
                    |n: String| declared_module(n@, false),
                ),
                ..after_forms
            }),
        decreases cfg.private_submodules.len() - j,
    {
        module.add_submodule(cfg.private_submodules[j].clone());
        j = j + 1;
        assert(module@.submodules =~= after_forms.submodules + cfg.private_submodules@.take(
            j as int,
        ).map_values(|n: String| declared_module(n@, false)));
    }
    assert(cfg.private_submodules@.take(cfg.private_submodules.len() as int)
        == cfg.private_submodules@);
    let ghost after_private = module@;
    let mut k: usize = 0;
    assert(after_private.submodules =~= after_private.submodules + cfg.public_submodules@.take(0).map_values(
        |n: String| declared_module(n@, true),
    ));
    while k < cfg.public_submodules.len()
        invariant
            k <= cfg.public_submodules.len(),
            module@ == (ModuleV {
                submodules: after_private.submodules + cfg.public_submodules@.take(k as int).map_values(
                    |n: String| declared_module(n@, true),
                ),
                ..after_private
            }),
        decreases cfg.public_submodules.len() - k,
    {
        let sub = module.add_submodule(cfg.public_submodules[k].clone());
        sub.mark_as_public();
        k = k + 1;
        assert(module@.submodules =~= after_private.submodules + cfg.public_submodules@.take(
            k as int,
        ).map_values(|n: String| declared_module(n@, true)));
    }
    assert(cfg.public_submodules@.take(cfg.public_submodules.len() as int) == cfg.public_submodules@);
    let ghost after_public = module@;
    let mut q: usize = 0;
    assert(after_public.re_exports =~= after_public.re_exports + strings_view(cfg.re_exports@.take(0)));
    while q < cfg.re_exports.len()
        invariant
            q <= cfg.re_exports.len(),
            module@ == (ModuleV {
                re_exports: after_public.re_exports + strings_view(cfg.re_exports@.take(q as int)),
                ..after_public
            }),
        decreases cfg.re_exports.len() - q,
    {
        module.re_export(cfg.re_exports[q].clone());
        q = q + 1;
        assert(module@.re_exports =~= after_public.re_exports + strings_view(
            cfg.re_exports@.take(q as int),
        ));
    }
    assert(cfg.re_exports@.take(cfg.re_exports.len() as int) == cfg.re_exports@);
    assert(module@ =~~= archetype_module_view(*cfg));
    module
}

/// Generate the code of the module of an archetype and its descendants.
pub fn code_archetype_module(cfg: &ArchetypeModuleConfig) -> (res: String)
    ensures
        res@ == module_text(archetype_module_view(*cfg), CODE_WIDTH as int),
{
    let module = archetype_module_fragment(cfg);
    proof {
        crate::layout::lemma_all_modules_renderable(module@.submodules, CODE_WIDTH as int);
        assert(crate::layout::all_renderable(
            Seq::<crate::fragment::FragmentV>::empty(),
            CODE_WIDTH as int,
        ));
        assert(module_renderable(module@, CODE_WIDTH as int));
    }
    module.body(CODE_WIDTH)
}

} // verus!
