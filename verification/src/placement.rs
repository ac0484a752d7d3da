//! Where the code generated for a concept goes: the file that holds it, the path it is imported
//! by, and the struct that names it.
use vstd::prelude::*;
use crate::fragment::{struct_view, StructConfig, StructV};
use crate::naming::{ascii_lowercase, camel_case, snake_case, to_ascii_lowercase, to_camel_case, to_snake_case};
use crate::text::{join, join_strings, strings_view};

verus! {

/// What placing an archetype's code reads of the archetype.
pub struct ArchetypePlace {
    /// The archetype's internal name.
    pub name: String,
    /// The internal names of its ancestors, from the root down to its parent.
    pub ancestry: Vec<String>,
    /// Whether the archetype has a submodule of its own, which holds its descendants.
    pub own_submodule: bool,
}

/// Whether an archetype gets a submodule of its own: whether any of its individuals is a node
/// other than the archetype itself.
pub fn in_own_submodule(individuals: &Vec<u64>, archetype: u64) -> (r: bool)
    ensures
        r == exists|i: int| 0 <= i < individuals.len() && individuals@[i] != archetype,
{
    let mut i: usize = 0;
    while i < individuals.len()
        invariant
            i <= individuals.len(),
            forall|k: int| 0 <= k < i ==> individuals@[k] == archetype,
        decreases individuals.len() - i,
    {
        if individuals[i] != archetype {
            return true;
        }
        i = i + 1;
    }
    false
}

/// The snake-case forms of some names.
pub open spec fn snake_names(names: Seq<Seq<char>>) -> Seq<Seq<char>> {
    names.map_values(|n: Seq<char>| snake_case(n))
}

/// The module path of an archetype's code: its ancestors' snake-case names, then its own when
/// it has a submodule of its own, joined by `sep` and lowercased.
pub open spec fn ancestor_path(
    ancestry: Seq<Seq<char>>,
    own_submodule: bool,
    name: Seq<char>,
    sep: Seq<char>,
) -> Seq<char> {
    ascii_lowercase(
        join(snake_names(ancestry), sep) + if own_submodule {
            (if ancestry.len() > 0 {
                sep
            } else {
                Seq::empty()
            }) + snake_case(name)
        } else {
            Seq::empty()
        },
    )
}

/// The module path of a placed archetype's code, with `sep` between modules.
pub open spec fn place_path(p: ArchetypePlace, sep: Seq<char>) -> Seq<char> {
    ancestor_path(strings_view(p.ancestry@), p.own_submodule, p.name@, sep)
}

/// The source file of a placed archetype: `src/`, its module folders, then its snake-case name
/// with `_form.rs`, all lowercased.
pub open spec fn place_file(p: ArchetypePlace) -> Seq<char> {
    ascii_lowercase("src/"@ + place_path(p, "/"@) + "/"@ + snake_case(p.name@) + "_form.rs"@)
}

/// The import path of a placed archetype, without the crate: its modules, then its camel-case
/// name.
pub open spec fn place_import(p: ArchetypePlace) -> Seq<char> {
    place_path(p, "::"@) + "::"@ + camel_case(p.name@)
}

/// The module path of an archetype's code, with `separator` between modules.
pub fn ancestor_names(place: &ArchetypePlace, separator: &str) -> (res: String)
    ensures
        res@ == place_path(*place, separator@),
{
    let mut names: Vec<String> = Vec::new();
    let mut i: usize = 0;
    while i < place.ancestry.len()
        invariant
            i <= place.ancestry.len(),
            strings_view(names@) == snake_names(strings_view(place.ancestry@).take(i as int)),
        decreases place.ancestry.len() - i,
    {
        let s = to_snake_case(place.ancestry[i].as_str());
        let ghost a = strings_view(place.ancestry@);
        let ghost before = strings_view(names@);
        names.push(s);
        proof {
            assert(a.take(i + 1) =~= a.take(i as int).push(a[i as int]));
            assert(strings_view(names@) =~= before.push(s@));
            assert(snake_names(a.take(i + 1)) =~= snake_names(a.take(i as int)).push(
                snake_case(a[i as int]),
            ));
        }
        i = i + 1;
    }
    assert(strings_view(place.ancestry@).take(i as int) =~= strings_view(place.ancestry@));
    let mut path = join_strings(&names, separator);
    if place.own_submodule {
        if place.ancestry.len() > 0 {
            path.append(separator);
        }
        let own = to_snake_case(place.name.as_str());
        path.append(own.as_str());
    }
    let res = to_ascii_lowercase(path.as_str());
    proof {
        let tail: Seq<char> = if place.own_submodule {
            (if place.ancestry.len() > 0 {
                separator@
            } else {
                Seq::empty()
            }) + snake_case(place.name@)
        } else {
            Seq::empty()
        };
        assert(path@ =~= join(snake_names(strings_view(place.ancestry@)), separator@) + tail);
    }
    res
}

/// The source file that holds an archetype's code. The `_form` suffix keeps the file from
/// having the name of the module it is in.
pub fn file_path(place: &ArchetypePlace) -> (res: String)
    ensures
        res@ == place_file(*place),
{
    let folders = ancestor_names(place, "/");
    let snake = to_snake_case(place.name.as_str());
    let mut raw = "src/".to_owned();
    raw.append(folders.as_str());
    raw.append("/");
    raw.append(snake.as_str());
    raw.append("_form.rs");
    to_ascii_lowercase(raw.as_str())
}

/// The import path of an archetype's struct, without the crate itself.
pub fn import_path(place: &ArchetypePlace) -> (res: String)
    ensures
        res@ == place_import(*place),
{
    let mut path = ancestor_names(place, "::");
    let camel = to_camel_case(place.name.as_str());
    path.append("::");
    path.append(camel.as_str());
    path
}

/// The struct that stands for an archetype in generated code, with the path it is imported by.
pub fn concept_to_struct(place: &ArchetypePlace) -> (res: StructConfig)
    ensures
        res.name@ == camel_case(place.name@),
        res.import@ == place_import(*place),
{
    StructConfig { name: to_camel_case(place.name.as_str()), import: import_path(place) }
}

/// The struct that stands for a placed archetype.
pub open spec fn place_struct(p: ArchetypePlace) -> StructV {
    StructV { name: camel_case(p.name@), import: place_import(p) }
}

/// The structs that stand for placed archetypes, in order.
pub open spec fn place_structs(ps: Seq<ArchetypePlace>) -> Seq<StructV> {
    ps.map_values(|p: ArchetypePlace| place_struct(p))
}

/// The views of a sequence of struct configurations.
pub open spec fn structs_view(v: Seq<StructConfig>) -> Seq<StructV> {
    v.map_values(|c: StructConfig| struct_view(c))
}

/// The owner and value types of an attribute archetype, with the archetype `Form`, which stands
/// in for either of them that is `Tao`.
pub struct AttributeTypes {
    /// The owner archetype.
    pub owner: ArchetypePlace,
    /// Whether the owner archetype is `Tao`.
    pub owner_is_tao: bool,
    /// The value archetype.
    pub value: ArchetypePlace,
    /// Whether the value archetype is `Tao`.
    pub value_is_tao: bool,
    /// The archetype `Form`.
    pub form: ArchetypePlace,
}

/// The structs of an attribute's owner and value types, and of the forms that its owner and
/// value take.
pub struct AttributeStructs {
    /// The owner type's struct.
    pub owner: StructConfig,
    /// The value type's struct.
    pub value: StructConfig,
    /// The struct of the form that owners take.
    pub owner_form: StructConfig,
    /// The struct of the form that values take.
    pub value_form: StructConfig,
}

/// What generating the code of an archetype needs: its name, its parent's struct, the structs of
/// its attributes and of those it introduces, for an attribute archetype the structs of its
/// owner and value types and forms, and the file its code goes to.
pub struct ImplementationPlan {
    /// The archetype's internal name.
    pub name: String,
    /// The struct of its parent.
    pub parent: StructConfig,
    /// The structs of all its attribute archetypes.
    pub all_attributes: Vec<StructConfig>,
    /// The structs of the attribute archetypes it introduces.
    pub introduced_attributes: Vec<StructConfig>,
    /// For an attribute archetype, the structs of its owner and value types and forms.
    pub attribute_structs: Option<AttributeStructs>,
    /// The file its code goes to.
    pub file_path: String,
}

/// The structs of placed archetypes, in order.
fn structs_of(ps: &Vec<ArchetypePlace>) -> (res: Vec<StructConfig>)
    ensures
        structs_view(res@) == place_structs(ps@),
{
    let mut res: Vec<StructConfig> = Vec::new();
    let mut i: usize = 0;
    while i < ps.len()
        invariant
            i <= ps.len(),
            res@.len() == i,
            forall|j: int| 0 <= j < i ==> struct_view(#[trigger] res@[j]) == place_struct(ps@[j]),
        decreases ps.len() - i,
    {
        res.push(concept_to_struct(&ps[i]));
        i = i + 1;
    }
    assert(structs_view(res@) =~= place_structs(ps@));
    res
}

/// What generating the code of `target` needs, given its ancestors from the root down, the
/// attribute archetypes it has and those it introduces, and, for an attribute archetype, its
/// owner and value types: its parent is its last ancestor, an owner or value type that is `Tao`
/// takes the form `Form`, and its code goes to its own file.
pub fn implementation_config(
    target: &ArchetypePlace,
    ancestors: &Vec<ArchetypePlace>,
    attributes: &Vec<ArchetypePlace>,
    introduced: &Vec<ArchetypePlace>,
    attribute_types: Option<&AttributeTypes>,
) -> (res: ImplementationPlan)
    requires
        ancestors@.len() > 0,
    ensures
        res.name@ == target.name@,
        struct_view(res.parent) == place_struct(ancestors@.last()),
        structs_view(res.all_attributes@) == place_structs(attributes@),
        structs_view(res.introduced_attributes@) == place_structs(introduced@),
        res.file_path@ == place_file(*target),
        match attribute_types {
            None => res.attribute_structs is None,
            Some(t) => match res.attribute_structs {
                Some(a) => {
                    &&& struct_view(a.owner) == place_struct(t.owner)
                    &&& struct_view(a.value) == place_struct(t.value)
                    &&& struct_view(a.owner_form) == place_struct(
                        if t.owner_is_tao {
                            t.form
                        } else {
                            t.owner
                        },
                    )
                    &&& struct_view(a.value_form) == place_struct(
                        if t.value_is_tao {
                            t.form
                        } else {
                            t.value
                        },
                    )
                },
                None => false,
            },
        },
{
    let parent = concept_to_struct(&ancestors[ancestors.len() - 1]);
    let attribute_structs = match attribute_types {
        None => None,
        Some(t) => {
            let owner_form = if t.owner_is_tao {
                concept_to_struct(&t.form)
            } else {
                concept_to_struct(&t.owner)
            };
            let value_form = if t.value_is_tao {
                concept_to_struct(&t.form)
            } else {
                concept_to_struct(&t.value)
            };
            Some(
                AttributeStructs {
                    owner: concept_to_struct(&t.owner),
                    value: concept_to_struct(&t.value),
                    owner_form,
                    value_form,
                },
            )
        },
    };
    ImplementationPlan {
        name: target.name.clone(),
        parent,
        all_attributes: structs_of(attributes),
        introduced_attributes: structs_of(introduced),
        attribute_structs,
        file_path: file_path(target),
    }
}

} // verus!
