//! What each code fragment renders to: its text at a given line width, the imports it needs,
//! and the widths at which it can be rendered at all.
use vstd::prelude::*;
use crate::fragment::{AppendedV, FragmentV, FunctionV, ImplV, ModuleV, SelfReference, TypeV};
use crate::imports::{imports_text, re_exports_text};
use crate::order::{arrange, stable_order};
use crate::text::{
    contains_char, drop_empty, indent_lines, join, lemma_drop_empty_push, lemma_join_push, prefix_lines,
    trim, utf8_len,
};

verus! {

/// Width of a line of generated code.
pub const CODE_WIDTH: usize = 80;

/// Number of spaces by which nested code is indented.
pub const INDENT_SIZE: usize = 4;

/// A documentation comment: each line of `doc` behind `/// `.
pub open spec fn docstring(doc: Seq<char>) -> Seq<char> {
    prefix_lines("/// "@, "///"@, doc)
}

/// A module's inner documentation comment: each line of `doc` behind `//! `.
pub open spec fn module_docstring(doc: Seq<char>) -> Seq<char> {
    prefix_lines("//! "@, "//!"@, doc)
}

/// The documentation lines in front of an item, if it is documented.
pub open spec fn doc_text(doc: Option<Seq<char>>) -> Seq<char> {
    match doc {
        Some(d) => docstring(d) + "\n"@,
        None => Seq::empty(),
    }
}

/// The attribute lines in front of an item: `#[a]` for each attribute, one per line.
pub open spec fn attrs_text(attributes: Seq<Seq<char>>) -> Seq<char> {
    if attributes.len() == 0 {
        Seq::empty()
    } else {
        join(attributes.map_values(|a: Seq<char>| "#["@ + a + "]"@), "\n"@) + "\n"@
    }
}

/// The visibility in front of an item.
pub open spec fn pub_text(public: bool) -> Seq<char> {
    if public {
        "pub "@
    } else {
        Seq::empty()
    }
}

/// `sep` with its trailing spaces removed.
pub open spec fn trim_spaces_end(sep: Seq<char>) -> Seq<char>
    decreases sep.len(),
{
    if sep.len() > 0 && sep.last() == ' ' {
        trim_spaces_end(sep.drop_last())
    } else {
        sep
    }
}

/// What separates nested fragments that are laid out one per line: the separator without
/// trailing spaces, ending in a line break.
pub open spec fn line_joiner(sep: Seq<char>) -> Seq<char> {
    let t = trim_spaces_end(sep);
    if t.len() > 0 && t.last() == '\n' {
        t
    } else {
        t.push('\n')
    }
}

/// The text of a fragment nested between `pre` and `post`. The nested bodies stay on the line
/// of the preamble when that fits in `width`, when none of them spans lines and when the
/// preamble opens no block; otherwise they go one per line, indented, with `postfix` after the
/// last one.
pub open spec fn nested_text(
    pre_raw: Seq<char>,
    bodies: Seq<Seq<char>>,
    sep: Seq<char>,
    postfix: Option<Seq<char>>,
    post_raw: Seq<char>,
    width: int,
) -> Seq<char> {
    let pre = trim(pre_raw);
    let post = trim(post_raw);
    let inner = trim(join(drop_empty(bodies), sep));
    if !contains_char(inner, '\n') && (!contains_char(pre, '{') || inner.len() == 0) && utf8_len(
        pre,
    ) + utf8_len(inner) + utf8_len(post) <= width {
        pre + inner + post
    } else {
        let multi = trim(join(drop_empty(bodies), line_joiner(sep)));
        let tail = match postfix {
            Some(p) => p,
            None => Seq::empty(),
        };
        pre + "\n"@ + indent_lines(4, multi) + tail + "\n"@ + post
    }
}

/// A block that always spans lines: the opening line, the indented inside, if any, and `}`.
pub open spec fn block_text(pre_raw: Seq<char>, inner_raw: Seq<char>) -> Seq<char> {
    let pre = trim(pre_raw);
    let inner = trim(inner_raw);
    pre + "\n"@ + (if inner.len() == 0 {
        Seq::empty()
    } else {
        indent_lines(4, inner) + "\n"@
    }) + "}"@
}

/// The text of an item declaration: documentation, attributes, visibility and definition,
/// followed by its implementation in braces or by `;` when it has none.
pub open spec fn item_text(
    doc: Option<Seq<char>>,
    public: bool,
    attributes: Seq<Seq<char>>,
    definition: Seq<char>,
    body: Option<Seq<char>>,
    width: int,
) -> Seq<char> {
    let pre = trim(doc_text(doc) + attrs_text(attributes) + pub_text(public) + definition);
    match body {
        Some(b) => nested_text(pre + " {"@, seq![b], Seq::empty(), None, "}"@, width),
        None => pre + ";"@,
    }
}

/// The parameter list of a function: the receiver, if any, then `name: type` for each argument.
pub open spec fn params_text(
    self_reference: Option<SelfReference>,
    args: Seq<(Seq<char>, Seq<char>)>,
) -> Seq<char> {
    let receiver: Seq<Seq<char>> = match self_reference {
        Some(SelfReference::Mutable) => seq!["&mut self"@],
        Some(SelfReference::Immutable) => seq!["&self"@],
        None => Seq::empty(),
    };
    join(receiver + args.map_values(|a: (Seq<char>, Seq<char>)| a.0 + ": "@ + a.1), ", "@)
}

/// The signature line of a function, with its documentation and attributes.
pub open spec fn function_preamble(f: FunctionV) -> Seq<char> {
    doc_text(f.doc) + attrs_text(f.attributes) + pub_text(f.public) + "fn "@ + f.name + "("@
        + params_text(f.self_reference, f.args) + ")"@ + (match f.return_type {
        Some(r) => " -> "@ + r,
        None => Seq::empty(),
    }) + " {"@
}

/// The definition line of an `impl` block.
pub open spec fn impl_definition(i: ImplV) -> Seq<char> {
    match i.trait_cfg {
        Some(t) => "impl"@ + (if i.lifetimes.len() == 0 {
            Seq::empty()
        } else {
            "<"@ + join(i.lifetimes.map_values(|c: char| seq!['\'', c]), ", "@) + ">"@
        }) + " "@ + t.name + " for "@ + i.struct_cfg.name,
        None => "impl "@ + i.struct_cfg.name,
    }
}

/// The text of a type with its required traits: `Name` or `Name: A + B`.
pub open spec fn type_text(name: Seq<char>, trait_bodies: Seq<Seq<char>>) -> Seq<char> {
    if trait_bodies.len() == 0 {
        name
    } else {
        name + ": "@ + join(trait_bodies, " + "@)
    }
}

/// The key by which submodules are sorted: the order of their optional names, a missing name
/// first.
pub open spec fn name_key(name: Option<Seq<char>>) -> Seq<char> {
    match name {
        Some(n) => seq!['\0'] + n,
        None => Seq::empty(),
    }
}

/// The bodies of the submodules with the given publicity, sorted stably by name.
pub open spec fn sorted_submodule_bodies(
    subs: Seq<ModuleV>,
    bodies: Seq<Seq<char>>,
    public: bool,
) -> Seq<Seq<char>> {
    let picked = Seq::new(subs.len(), |i: int| i).filter(|i: int| subs[i].public == public);
    let keys = picked.map_values(|i: int| name_key(subs[i].name));
    arrange(arrange(bodies, picked), stable_order(keys, picked.len()))
}

/// The import `super::*` that a test module adds.
pub open spec fn super_glob() -> Seq<char> {
    "super::*"@
}

/// The imports a module declares for its content.
pub open spec fn module_imports(m: ModuleV) -> Seq<Seq<char>> {
    imports_all(m.content.items) + (if m.test {
        seq![super_glob()]
    } else {
        Seq::empty()
    })
}

/// The inside of a module: public then private submodules, imports, re-exports and content,
/// separated by blank lines.
pub open spec fn module_internals(
    m: ModuleV,
    sub_bodies: Seq<Seq<char>>,
    content_bodies: Seq<Seq<char>>,
) -> Seq<char> {
    let public_subs = join(drop_empty(sorted_submodule_bodies(m.submodules, sub_bodies, true)), "\n"@);
    let private_subs = join(
        drop_empty(sorted_submodule_bodies(m.submodules, sub_bodies, false)),
        "\n"@,
    );
    let subs = join(drop_empty(seq![public_subs, private_subs]), "\n\n"@);
    let content = join(drop_empty(content_bodies), m.content.sep);
    join(
        drop_empty(
            seq![subs, imports_text(module_imports(m)), re_exports_text(m.re_exports), content],
        ),
        "\n\n"@,
    )
}

/// The text of a whole file: preamble, `use` declarations and body, separated by blank lines,
/// ending in a line break.
pub open spec fn file_text(preamble: Option<Seq<char>>, imports: Seq<char>, body: Seq<char>) -> Seq<
    char,
> {
    (match preamble {
        Some(p) => p + "\n\n"@,
        None => Seq::empty(),
    }) + (if imports.len() > 0 {
        imports + "\n\n"@
    } else {
        Seq::empty()
    }) + (if body.len() > 0 {
        body + "\n"@
    } else {
        Seq::empty()
    })
}

/// The width at which the inside of a module is rendered.
pub open spec fn module_inner_width(m: ModuleV, width: int) -> int {
    if m.uses_entire_file {
        CODE_WIDTH as int
    } else {
        width - INDENT_SIZE
    }
}

/// The text of a module: `mod name;` when only declared, the whole file when it takes one, and
/// otherwise a `mod name { ... }` block.
pub open spec fn module_text(m: ModuleV, width: int) -> Seq<char>
    decreases m,
{
    if m.declare_only {
        pub_text(m.public) + "mod "@ + m.name.unwrap() + ";"@
    } else {
        let w = module_inner_width(m, width);
        let internals = module_internals(
            m,
            modules_bodies(m.submodules, w),
            bodies_of(m.content.items, w),
        );
        if m.uses_entire_file {
            file_text(
                match m.doc {
                    Some(d) => Some(module_docstring(d)),
                    None => None,
                },
                imports_text(imports_all(m.content.items)),
                internals,
            )
        } else {
            block_text(
                doc_text(m.doc) + (if m.test {
                    "#[cfg(test)]\n"@
                } else {
                    Seq::empty()
                }) + pub_text(m.public) + "mod "@ + m.name.unwrap() + " {"@,
                internals,
            )
        }
    }
}

/// The texts of a sequence of modules.
pub open spec fn modules_bodies(s: Seq<ModuleV>, width: int) -> Seq<Seq<char>>
    decreases s,
{
    if s.len() == 0 {
        Seq::empty()
    } else {
        modules_bodies(s.drop_last(), width).push(module_text(s.last(), width))
    }
}

/// The text of a fragment, restricted to the given line width.
pub open spec fn body_of(f: FragmentV, width: int) -> Seq<char>
    decreases f,
{
    match f {
        FragmentV::Atomic(a) => trim(a.atom),
        FragmentV::Appended(a) => join(drop_empty(bodies_of(a.items, width)), a.sep),
        FragmentV::Nested(n) => nested_text(
            trim(n.preamble.atom),
            bodies_of(n.items, width - INDENT_SIZE),
            n.sep,
            n.postfix,
            n.postamble,
            width,
        ),
        FragmentV::Call(c) => nested_text(
            c.call.atom + (if c.is_macro {
                "!("@
            } else {
                "("@
            }),
            bodies_of(c.args, width - INDENT_SIZE),
            ", "@,
            if c.is_macro {
                None
            } else {
                Some(","@)
            },
            ");"@,
            width,
        ),
        FragmentV::Vector(e) => nested_text(
            "vec!["@,
            bodies_of(e, width - INDENT_SIZE),
            ", "@,
            None,
            "]"@,
            width,
        ),
        FragmentV::Assert(l, r) => nested_text(
            "assert_eq!("@,
            seq![body_of(*l, width - INDENT_SIZE), body_of(*r, width - INDENT_SIZE)],
            ", "@,
            None,
            ");"@,
            width,
        ),
        FragmentV::Item(i) => item_text(
            i.doc,
            i.public,
            i.attributes,
            body_of(*i.definition, width),
            match i.body {
                Some(b) => Some(body_of(*b, width - INDENT_SIZE)),
                None => None,
            },
            width,
        ),
        FragmentV::Function(fun) => block_text(
            function_preamble(fun),
            join(drop_empty(bodies_of(fun.content.items, width - INDENT_SIZE)), fun.content.sep),
        ),
        FragmentV::Implementation(i) => item_text(
            i.declaration.doc,
            i.declaration.public,
            i.declaration.attributes,
            trim(impl_definition(i)),
            Some(
                if i.body_is_content {
                    join(
                        drop_empty(bodies_of(i.content.items, width - INDENT_SIZE)),
                        i.content.sep,
                    )
                } else {
                    match i.declaration.body {
                        Some(b) => body_of(*b, width - INDENT_SIZE),
                        None => Seq::empty(),
                    }
                },
            ),
            width,
        ),
        FragmentV::Trait(t) => item_text(
            t.declaration.doc,
            t.declaration.public,
            t.declaration.attributes,
            trim(
                "trait "@ + type_text(t.trait_type.name, bodies_of(t.trait_type.required_traits, width)),
            ),
            Some(
                if t.body_is_content {
                    join(
                        drop_empty(bodies_of(t.content.items, width - INDENT_SIZE)),
                        t.content.sep,
                    )
                } else {
                    match t.declaration.body {
                        Some(b) => body_of(*b, width - INDENT_SIZE),
                        None => Seq::empty(),
                    }
                },
            ),
            width,
        ),
        FragmentV::TypeDecl(t) => item_text(
            t.declaration.doc,
            t.declaration.public,
            t.declaration.attributes,
            trim(
                "type "@ + type_text(
                    t.declared_type.name,
                    bodies_of(t.declared_type.required_traits, width),
                ),
            ),
            match t.declaration.body {
                Some(b) => Some(body_of(*b, width - INDENT_SIZE)),
                None => None,
            },
            width,
        ),
        FragmentV::Type(t) => type_text(t.name, bodies_of(t.required_traits, width)),
        FragmentV::Module(m) => module_text(m, width),
    }
}

/// The texts of a sequence of fragments.
pub open spec fn bodies_of(s: Seq<FragmentV>, width: int) -> Seq<Seq<char>>
    decreases s,
{
    if s.len() == 0 {
        Seq::empty()
    } else {
        bodies_of(s.drop_last(), width).push(body_of(s.last(), width))
    }
}

/// The imports that a type with its required traits needs.
pub open spec fn type_imports(t: TypeV) -> Seq<Seq<char>>
    decreases t,
{
    imports_all(t.required_traits) + (match t.import {
        Some(i) => seq![i],
        None => Seq::empty(),
    })
}

/// The imports that a fragment needs. Modules keep their imports to themselves.
pub open spec fn imports_of(f: FragmentV) -> Seq<Seq<char>>
    decreases f,
{
    match f {
        FragmentV::Atomic(a) => a.imports,
        FragmentV::Appended(a) => imports_all(a.items),
        FragmentV::Nested(n) => n.preamble.imports + imports_all(n.items),
        FragmentV::Call(c) => c.call.imports + imports_all(c.args),
        FragmentV::Vector(e) => imports_all(e),
        FragmentV::Assert(l, r) => imports_of(*l) + imports_of(*r),
        FragmentV::Item(i) => imports_of(*i.definition),
        FragmentV::Function(fun) => fun.imports + imports_all(fun.content.items),
        FragmentV::Implementation(i) => imports_all(i.content.items) + (match i.trait_cfg {
            Some(t) => if i.same_file_as_trait {
                Seq::empty()
            } else {
                seq![t.import]
            },
            None => Seq::empty(),
        }) + (if i.same_file_as_struct {
            Seq::empty()
        } else {
            seq![i.struct_cfg.import]
        }),
        FragmentV::Trait(t) => type_imports(t.trait_type) + imports_all(t.content.items),
        FragmentV::TypeDecl(t) => type_imports(t.declared_type),
        FragmentV::Type(t) => type_imports(t),
        FragmentV::Module(m) => Seq::empty(),
    }
}

/// The imports of a sequence of fragments, in order.
pub open spec fn imports_all(s: Seq<FragmentV>) -> Seq<Seq<char>>
    decreases s,
{
    if s.len() == 0 {
        Seq::empty()
    } else {
        imports_all(s.drop_last()) + imports_of(s.last())
    }
}

/// Whether a fragment can be rendered at the given width: every nested level leaves a width of
/// at least zero, and modules that are not a whole file have names.
pub open spec fn renderable(f: FragmentV, width: int) -> bool
    decreases f,
{
    match f {
        FragmentV::Atomic(a) => true,
        FragmentV::Appended(a) => all_renderable(a.items, width),
        FragmentV::Nested(n) => n.items.len() > 0 ==> (width >= INDENT_SIZE && all_renderable(
            n.items,
            width - INDENT_SIZE,
        )),
        FragmentV::Call(c) => c.args.len() > 0 ==> (width >= INDENT_SIZE && all_renderable(
            c.args,
            width - INDENT_SIZE,
        )),
        FragmentV::Vector(e) => e.len() > 0 ==> (width >= INDENT_SIZE && all_renderable(
            e,
            width - INDENT_SIZE,
        )),
        FragmentV::Assert(l, r) => width >= INDENT_SIZE && renderable(*l, width - INDENT_SIZE)
            && renderable(*r, width - INDENT_SIZE),
        FragmentV::Item(i) => renderable(*i.definition, width) && (match i.body {
            Some(b) => width >= INDENT_SIZE && renderable(*b, width - INDENT_SIZE),
            None => true,
        }),
        FragmentV::Function(fun) => width >= INDENT_SIZE && all_renderable(
            fun.content.items,
            width - INDENT_SIZE,
        ),
        FragmentV::Implementation(i) => width >= INDENT_SIZE && (if i.body_is_content {
            all_renderable(i.content.items, width - INDENT_SIZE)
        } else {
            match i.declaration.body {
                Some(b) => renderable(*b, width - INDENT_SIZE),
                None => true,
            }
        }),
        FragmentV::Trait(t) => all_renderable(t.trait_type.required_traits, width) && width
            >= INDENT_SIZE && (if t.body_is_content {
            all_renderable(t.content.items, width - INDENT_SIZE)
        } else {
            match t.declaration.body {
                Some(b) => renderable(*b, width - INDENT_SIZE),
                None => true,
            }
        }),
        FragmentV::TypeDecl(t) => all_renderable(t.declared_type.required_traits, width)
            && (match t.declaration.body {
            Some(b) => width >= INDENT_SIZE && renderable(*b, width - INDENT_SIZE),
            None => true,
        }),
        FragmentV::Type(t) => all_renderable(t.required_traits, width),
        FragmentV::Module(m) => module_renderable(m, width),
    }
}

/// Whether every fragment of a sequence can be rendered at the given width.
pub open spec fn all_renderable(s: Seq<FragmentV>, width: int) -> bool
    decreases s,
{
    if s.len() == 0 {
        true
    } else {
        all_renderable(s.drop_last(), width) && renderable(s.last(), width)
    }
}

/// Whether a module can be rendered at the given width.
pub open spec fn module_renderable(m: ModuleV, width: int) -> bool
    decreases m,
{
    if m.declare_only {
        m.name is Some
    } else {
        let w = module_inner_width(m, width);
        &&& all_renderable(m.content.items, w)
        &&& all_modules_renderable(m.submodules, w)
        &&& !m.uses_entire_file ==> (m.name is Some && width >= INDENT_SIZE)
    }
}

/// Whether every module of a sequence can be rendered at the given width.
pub open spec fn all_modules_renderable(s: Seq<ModuleV>, width: int) -> bool
    decreases s,
{
    if s.len() == 0 {
        true
    } else {
        all_modules_renderable(s.drop_last(), width) && module_renderable(s.last(), width)
    }
}

/// The texts of a sequence of fragments, element by element.
pub proof fn lemma_bodies_of(s: Seq<FragmentV>, width: int)
    ensures
        bodies_of(s, width).len() == s.len(),
        forall|i: int| 0 <= i < s.len() ==> #[trigger] bodies_of(s, width)[i] == body_of(s[i], width),
    decreases s.len(),
{
    if s.len() > 0 {
        lemma_bodies_of(s.drop_last(), width);
    }
}

/// The texts of a sequence of modules, element by element.
pub proof fn lemma_modules_bodies(s: Seq<ModuleV>, width: int)
    ensures
        modules_bodies(s, width).len() == s.len(),
        forall|i: int|
            0 <= i < s.len() ==> #[trigger] modules_bodies(s, width)[i] == module_text(s[i], width),
    decreases s.len(),
{
    if s.len() > 0 {
        lemma_modules_bodies(s.drop_last(), width);
    }
}

/// A sequence of fragments can be rendered exactly when each of them can.
pub proof fn lemma_all_renderable(s: Seq<FragmentV>, width: int)
    ensures
        all_renderable(s, width) <==> forall|i: int|
            0 <= i < s.len() ==> #[trigger] renderable(s[i], width),
    decreases s.len(),
{
    if s.len() > 0 {
        lemma_all_renderable(s.drop_last(), width);
        if forall|i: int| 0 <= i < s.len() ==> #[trigger] renderable(s[i], width) {
            assert forall|i: int| 0 <= i < s.drop_last().len() implies #[trigger] renderable(
                s.drop_last()[i],
                width,
            ) by {
                assert(renderable(s[i], width));
            }
            assert(renderable(s[s.len() - 1], width));
        }
        if all_renderable(s, width) {
            assert forall|i: int| 0 <= i < s.len() implies #[trigger] renderable(s[i], width) by {
                if i < s.len() - 1 {
                    assert(s[i] == s.drop_last()[i]);
                }
            }
        }
    }
}

/// A sequence of modules can be rendered exactly when each of them can.
pub proof fn lemma_all_modules_renderable(s: Seq<ModuleV>, width: int)
    ensures
        all_modules_renderable(s, width) <==> forall|i: int|
            0 <= i < s.len() ==> #[trigger] module_renderable(s[i], width),
    decreases s.len(),
{
    if s.len() > 0 {
        lemma_all_modules_renderable(s.drop_last(), width);
        if forall|i: int| 0 <= i < s.len() ==> #[trigger] module_renderable(s[i], width) {
            assert forall|i: int| 0 <= i < s.drop_last().len() implies #[trigger] module_renderable(
                s.drop_last()[i],
                width,
            ) by {
                assert(module_renderable(s[i], width));
            }
            assert(module_renderable(s[s.len() - 1], width));
        }
        if all_modules_renderable(s, width) {
            assert forall|i: int| 0 <= i < s.len() implies #[trigger] module_renderable(s[i], width) by {
                if i < s.len() - 1 {
                    assert(s[i] == s.drop_last()[i]);
                }
            }
        }
    }
}

/// The imports of a sequence with one more fragment.
pub proof fn lemma_imports_all_push(s: Seq<FragmentV>, f: FragmentV)
    ensures
        imports_all(s.push(f)) == imports_all(s) + imports_of(f),
{
    assert(s.push(f).drop_last() == s);
}

/// The imports of two runs of fragments, one after the other, are those of the first run
/// followed by those of the second.
pub proof fn lemma_imports_all_concat(a: Seq<FragmentV>, b: Seq<FragmentV>)
    ensures
        imports_all(a + b) == imports_all(a) + imports_all(b),
    decreases b.len(),
{
    if b.len() == 0 {
        assert(a + b =~= a);
        assert(imports_all(a) + imports_all(b) =~= imports_all(a));
    } else {
        lemma_imports_all_concat(a, b.drop_last());
        assert((a + b).drop_last() =~= a + b.drop_last());
        assert((a + b).last() == b.last());
        assert(imports_all(a) + imports_all(b.drop_last()) + imports_of(b.last()) =~= imports_all(a)
            + (imports_all(b.drop_last()) + imports_of(b.last())));
    }
}

// ---------------------------------------------------------------------------------------------
// Laws
// ---------------------------------------------------------------------------------------------

/// Appending a fragment to an appended fragment adds the new fragment's imports after the
/// existing ones.
pub proof fn lemma_append_imports(a: AppendedV, f: FragmentV)
    ensures
        imports_of(FragmentV::Appended(AppendedV { items: a.items.push(f), ..a })) == imports_of(
            FragmentV::Appended(a),
        ) + imports_of(f),
{
    lemma_imports_all_push(a.items, f);
}

/// Two texts one after the other, with `sep` between them when both are non-empty.
pub open spec fn then_text(x: Seq<char>, y: Seq<char>, sep: Seq<char>) -> Seq<char> {
    if y.len() == 0 {
        x
    } else if x.len() == 0 {
        y
    } else {
        x + sep + y
    }
}

/// Appending several fragments to an appended fragment puts their text, as a fragment of their
/// own with the same separator, after the existing text.
pub proof fn lemma_append_all_body(a: AppendedV, fs: Seq<FragmentV>, width: int)
    ensures
        body_of(FragmentV::Appended(AppendedV { items: a.items + fs, ..a }), width) == then_text(
            body_of(FragmentV::Appended(a), width),
            body_of(FragmentV::Appended(AppendedV { items: fs, ..a }), width),
            a.sep,
        ),
    decreases fs.len(),
{
    if fs.len() == 0 {
        assert(a.items + fs =~= a.items);
        assert(AppendedV { items: a.items + fs, ..a } == a);
        assert(bodies_of(fs, width) =~= Seq::<Seq<char>>::empty());
        assert(drop_empty(Seq::<Seq<char>>::empty()) =~= Seq::<Seq<char>>::empty());
    } else {
        let fs0 = fs.drop_last();
        let f = fs.last();
        lemma_append_all_body(a, fs0, width);
        let grown = AppendedV { items: a.items + fs0, ..a };
        assert(a.items + fs =~= grown.items.push(f));
        lemma_append_body(grown, f, width);
        let own = AppendedV { items: fs0, ..a };
        assert(fs =~= own.items.push(f));
        lemma_append_body(own, f, width);
        let x = body_of(FragmentV::Appended(a), width);
        let y = body_of(FragmentV::Appended(own), width);
        let z = body_of(f, width);
        assert(x + a.sep + y + a.sep + z =~= x + a.sep + (y + a.sep + z));
    }
}

/// Appending a fragment to an appended fragment puts the new fragment's text after the existing
/// text, with the separator between them when both are non-empty; a fragment with empty text
/// leaves the text as it was.
pub proof fn lemma_append_body(a: AppendedV, f: FragmentV, width: int)
    ensures
        body_of(FragmentV::Appended(AppendedV { items: a.items.push(f), ..a }), width) == if body_of(
            f,
            width,
        ).len() == 0 {
            body_of(FragmentV::Appended(a), width)
        } else if body_of(FragmentV::Appended(a), width).len() == 0 {
            body_of(f, width)
        } else {
            body_of(FragmentV::Appended(a), width) + a.sep + body_of(f, width)
        },
{
    let items = a.items.push(f);
    lemma_bodies_of(items, width);
    lemma_bodies_of(a.items, width);
    assert(bodies_of(items, width) =~= bodies_of(a.items, width).push(body_of(f, width)));
    lemma_drop_empty_push(bodies_of(a.items, width), body_of(f, width));
    lemma_join_push(drop_empty(bodies_of(a.items, width)), a.sep, body_of(f, width));
    lemma_drop_empty_last(bodies_of(a.items, width));
}

/// What is left after dropping empty pieces ends with a non-empty piece, so that joining it
/// gives non-empty text.
proof fn lemma_drop_empty_last(parts: Seq<Seq<char>>)
    ensures
        drop_empty(parts).len() > 0 ==> drop_empty(parts).last().len() > 0,
        forall|sep: Seq<char>|
            drop_empty(parts).len() > 0 ==> #[trigger] join(drop_empty(parts), sep).len() > 0,
    decreases parts.len(),
{
    if parts.len() > 0 {
        lemma_drop_empty_last(parts.drop_last());
    }
    let d = drop_empty(parts);
    if d.len() > 0 {
        assert forall|sep: Seq<char>| #[trigger] join(d, sep).len() > 0 by {
            if d.len() > 1 {
                assert(join(d, sep) == join(d.drop_last(), sep) + sep + d.last());
            }
        }
    }
}

/// The imports inside a module never make it out of the module.
pub proof fn lemma_module_imports_stay_inside(m: ModuleV)
    ensures
        imports_of(FragmentV::Module(m)) == Seq::<Seq<char>>::empty(),
{
}

/// The UTF-8 length of joined text is the sum of the lengths of its parts.
proof fn lemma_utf8_len_concat(a: Seq<char>, b: Seq<char>)
    ensures
        utf8_len(a + b) == utf8_len(a) + utf8_len(b),
    decreases b.len(),
{
    if b.len() == 0 {
        assert(a + b =~= a);
    } else {
        lemma_utf8_len_concat(a, b.drop_last());
        assert((a + b).drop_last() =~= a + b.drop_last());
        assert((a + b).last() == b.last());
    }
}

/// Nested text that stays on one line fits in the line width: contents that would not fit are
/// laid out on lines of their own.
pub proof fn lemma_inline_nesting_fits(
    pre: Seq<char>,
    bodies: Seq<Seq<char>>,
    sep: Seq<char>,
    postfix: Option<Seq<char>>,
    post: Seq<char>,
    width: int,
)
    requires
        !contains_char(nested_text(pre, bodies, sep, postfix, post, width), '\n'),
    ensures
        utf8_len(nested_text(pre, bodies, sep, postfix, post, width)) <= width,
{
    let p = trim(pre);
    let q = trim(post);
    let inner = trim(join(drop_empty(bodies), sep));
    let t = nested_text(pre, bodies, sep, postfix, post, width);
    if !contains_char(inner, '\n') && (!contains_char(p, '{') || inner.len() == 0) && utf8_len(p)
        + utf8_len(inner) + utf8_len(q) <= width {
        lemma_utf8_len_concat(p, inner);
        lemma_utf8_len_concat(p + inner, q);
    } else {
        let multi = trim(join(drop_empty(bodies), line_joiner(sep)));
        let tail = match postfix {
            Some(x) => x,
            None => Seq::empty(),
        };
        reveal_strlit("\n");
        assert(t == p + "\n"@ + indent_lines(4, multi) + tail + "\n"@ + q);
        assert(t[p.len() as int] == '\n');
    }
}

} // verus!
