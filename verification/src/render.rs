//! Rendering code fragments into text, and collecting the imports they need.
use vstd::prelude::*;
use crate::fragment::{
    args_view, frag_view, frags_view, lemma_frags_view, lemma_modules_view, module_view,
    modules_view, opt_view, AppendedFragment, AssertFragment, AtomicFragment, Fragment,
    FragmentV, FunctionArgument, FunctionCallFragment, FunctionFragment, ImplementationFragment,
    ItemDeclaration, ModuleFragment, NestedFragment, SelfReference, TraitFragment,
    TypeDeclaration, TypeFragment, VecFragment,
};
use crate::imports::{imports_str_of, re_exports_str_of};
use crate::layout::{
    all_modules_renderable, all_renderable, attrs_text, block_text, body_of, bodies_of,
    doc_text, file_text, function_preamble, impl_definition, imports_all, imports_of, item_text,
    lemma_all_modules_renderable, lemma_all_renderable, lemma_bodies_of, lemma_imports_all_push,
    lemma_modules_bodies, line_joiner, module_imports, module_internals, module_renderable,
    module_text, modules_bodies, name_key, nested_text, params_text, pub_text, renderable,
    sorted_submodule_bodies, trim_spaces_end, type_imports, type_text, CODE_WIDTH,
    INDENT_SIZE,
};
use crate::order::{arrange_strings, keys_view, stable_order, stable_sort_positions};
use crate::text::{
    chars_of, has_char, indent4, join_nonempty, join_strings,
    prefix_each_line, string_from_range, strings_view, trim, trim_str, utf8_length,
};

verus! {

/// What separates nested fragments laid out one per line.
fn line_joiner_of(sep: &str) -> (res: String)
    ensures
        res@ == line_joiner(sep@),
{
    let v = chars_of(sep);
    let mut n = v.len();
    assert(v@.take(n as int) == v@);
    while n > 0 && v[n - 1] == ' '
        invariant
            n <= v.len(),
            v@ == sep@,
            trim_spaces_end(sep@) == trim_spaces_end(v@.take(n as int)),
        decreases n,
    {
        assert(v@.take(n as int).drop_last() == v@.take(n - 1));
        n = n - 1;
    }
    let mut res = string_from_range(&v, 0, n);
    assert(v@.subrange(0, n as int) == v@.take(n as int));
    if n > 0 && v[n - 1] == '\n' {
        res
    } else {
        res.push('\n');
        res
    }
}

/// The text of fragments nested between a preamble and a postamble; see `nested_text`.
pub fn render_nested(
    pre_raw: &str,
    bodies: &Vec<String>,
    sep: &str,
    postfix: &Option<String>,
    post_raw: &str,
    width: usize,
) -> (res: String)
    ensures
        res@ == nested_text(
            pre_raw@,
            strings_view(bodies@),
            sep@,
            opt_view(*postfix),
            post_raw@,
            width as int,
        ),
{
    let pre = trim_str(pre_raw);
    let post = trim_str(post_raw);
    let joined = join_nonempty(bodies, sep);
    let inner = trim_str(joined.as_str());
    let lp = utf8_length(pre.as_str());
    let li = utf8_length(inner.as_str());
    let lq = utf8_length(post.as_str());
    if !has_char(inner.as_str(), '\n') && (!has_char(pre.as_str(), '{') || inner.as_str().is_empty())
        && lp + li + lq <= width as u128 {
        let mut res = pre;
        res.append(inner.as_str());
        res.append(post.as_str());
        res
    } else {
        let joiner = line_joiner_of(sep);
        let multi_joined = join_nonempty(bodies, joiner.as_str());
        let multi = trim_str(multi_joined.as_str());
        let indented = indent4(multi.as_str());
        let mut res = pre;
        res.append("\n");
        res.append(indented.as_str());
        match postfix {
            Some(p) => {
                res.append(p.as_str());
            },
            None => {},
        }
        res.append("\n");
        res.append(post.as_str());
        proof {
            let tail = match opt_view(*postfix) {
                Some(p) => p,
                None => Seq::empty(),
            };
            assert(res@ =~= trim(pre_raw@) + "\n"@ + indented@ + tail + "\n"@ + trim(post_raw@));
        }
        res
    }
}

/// A block that always spans lines; see `block_text`.
pub fn render_block(pre_raw: &str, inner_raw: &str) -> (res: String)
    ensures
        res@ == block_text(pre_raw@, inner_raw@),
{
    let mut res = trim_str(pre_raw);
    let inner = trim_str(inner_raw);
    res.append("\n");
    if !inner.as_str().is_empty() {
        let indented = indent4(inner.as_str());
        res.append(indented.as_str());
        res.append("\n");
    }
    res.append("}");
    res
}

/// The documentation lines in front of an item.
pub fn doc_text_of(doc: &Option<String>) -> (res: String)
    ensures
        res@ == doc_text(opt_view(*doc)),
{
    match doc {
        Some(d) => {
            let mut res = prefix_each_line(d.as_str(), "/// ", "///");
            res.append("\n");
            res
        },
        None => String::new(),
    }
}

/// The attribute lines in front of an item.
pub fn attrs_text_of(attributes: &Vec<String>) -> (res: String)
    ensures
        res@ == attrs_text(strings_view(attributes@)),
{
    if attributes.len() == 0 {
        return String::new();
    }
    let mut wrapped: Vec<String> = Vec::new();
    let mut i: usize = 0;
    while i < attributes.len()
        invariant
            i <= attributes.len(),
            wrapped@.len() == i,
            forall|k: int|
                0 <= k < i ==> (#[trigger] wrapped@[k])@ == "#["@ + attributes@[k]@ + "]"@,
        decreases attributes.len() - i,
    {
        let mut w = "#[".to_owned();
        w.append(attributes[i].as_str());
        w.append("]");
        wrapped.push(w);
        i = i + 1;
    }
    proof {
        assert(strings_view(wrapped@) =~= strings_view(attributes@).map_values(
            |a: Seq<char>| "#["@ + a + "]"@,
        ));
    }
    let mut res = join_strings(&wrapped, "\n");
    res.append("\n");
    res
}

/// The text of an item declaration; see `item_text`.
pub fn render_item(
    doc: &Option<String>,
    public: bool,
    attributes: &Vec<String>,
    definition: &str,
    body: &Option<String>,
    width: usize,
) -> (res: String)
    ensures
        res@ == item_text(
            opt_view(*doc),
            public,
            strings_view(attributes@),
            definition@,
            opt_view(*body),
            width as int,
        ),
{
    let mut raw = doc_text_of(doc);
    let attrs = attrs_text_of(attributes);
    raw.append(attrs.as_str());
    if public {
        raw.append("pub ");
    }
    raw.append(definition);
    proof {
        assert(raw@ =~= doc_text(opt_view(*doc)) + attrs_text(strings_view(attributes@)) + pub_text(
            public,
        ) + definition@);
    }
    let mut pre = trim_str(raw.as_str());
    match body {
        Some(b) => {
            pre.append(" {");
            let mut bodies: Vec<String> = Vec::new();
            bodies.push(b.clone());
            proof {
                assert(strings_view(bodies@) =~= seq![b@]);
                reveal_strlit("");
                assert(""@ =~= Seq::<char>::empty());
            }
            render_nested(pre.as_str(), &bodies, "", &None, "}", width)
        },
        None => {
            pre.append(";");
            pre
        },
    }
}

/// The parameter list of a function.
fn params_text_of(self_reference: Option<SelfReference>, args: &Vec<FunctionArgument>) -> (res:
    String)
    ensures
        res@ == params_text(self_reference, args_view(args@)),
{
    let mut parts: Vec<String> = Vec::new();
    match self_reference {
        Some(SelfReference::Mutable) => parts.push("&mut self".to_owned()),
        Some(SelfReference::Immutable) => parts.push("&self".to_owned()),
        None => {},
    }
    let ghost receiver: Seq<Seq<char>> = match self_reference {
        Some(SelfReference::Mutable) => seq!["&mut self"@],
        Some(SelfReference::Immutable) => seq!["&self"@],
        None => Seq::empty(),
    };
    assert(strings_view(parts@) =~= receiver);
    let r = parts.len();
    let mut i: usize = 0;
    while i < args.len()
        invariant
            i <= args.len(),
            parts@.len() == r + i,
            r <= 1,
            forall|k: int| 0 <= k < r ==> (#[trigger] parts@[k])@ == receiver[k],
            receiver.len() == r,
            forall|k: int|
                0 <= k < i ==> (#[trigger] parts@[r + k])@ == args@[k].name@ + ": "@
                    + args@[k].arg_type@,
        decreases args.len() - i,
    {
        let mut p = args[i].name.clone();
        p.append(": ");
        p.append(args[i].arg_type.as_str());
        parts.push(p);
        i = i + 1;
    }
    proof {
        let expected = receiver + args_view(args@).map_values(
            |a: (Seq<char>, Seq<char>)| a.0 + ": "@ + a.1,
        );
        assert forall|k: int| 0 <= k < parts@.len() implies (#[trigger] strings_view(parts@)[k])
            == expected[k] by {
            if k >= r {
                assert(parts@[r + (k - r)] == parts@[k]);
            }
        }
        assert(strings_view(parts@) =~= expected);
    }
    join_strings(&parts, ", ")
}

/// The signature line of a function with its documentation and attributes.
pub fn function_preamble_of(f: &FunctionFragment) -> (res: String)
    ensures
        res@ == function_preamble(f@),
{
    let mut res = doc_text_of(&f.doc);
    let attrs = attrs_text_of(&f.attributes);
    res.append(attrs.as_str());
    if f.public {
        res.append("pub ");
    }
    res.append("fn ");
    res.append(f.name.as_str());
    res.append("(");
    let params = params_text_of(f.self_reference, &f.args);
    res.append(params.as_str());
    res.append(")");
    match &f.return_type {
        Some(r) => {
            res.append(" -> ");
            res.append(r.as_str());
        },
        None => {},
    }
    res.append(" {");
    proof {
        assert(res@ =~= function_preamble(f@));
    }
    res
}

/// The definition line of an `impl` block.
pub fn impl_definition_of(i: &ImplementationFragment) -> (res: String)
    ensures
        res@ == impl_definition(i@),
{
    match &i.trait_cfg {
        Some(t) => {
            let mut res = "impl".to_owned();
            if i.lifetime_variables.len() > 0 {
                let mut names: Vec<String> = Vec::new();
                let mut k: usize = 0;
                while k < i.lifetime_variables.len()
                    invariant
                        k <= i.lifetime_variables.len(),
                        names@.len() == k,
                        forall|q: int|
                            0 <= q < k ==> (#[trigger] names@[q])@ == seq![
                                '\'',
                                i.lifetime_variables@[q],
                            ],
                    decreases i.lifetime_variables.len() - k,
                {
                    let mut n = String::new();
                    n.push('\'');
                    n.push(i.lifetime_variables[k]);
                    names.push(n);
                    k = k + 1;
                }
                proof {
                    assert(strings_view(names@) =~= i.lifetime_variables@.map_values(
                        |c: char| seq!['\'', c],
                    ));
                }
                let joined = join_strings(&names, ", ");
                res.append("<");
                res.append(joined.as_str());
                res.append(">");
            }
            res.append(" ");
            res.append(t.name.as_str());
            res.append(" for ");
            res.append(i.struct_cfg.name.as_str());
            proof {
                assert(res@ =~= impl_definition(i@));
            }
            res
        },
        None => {
            let mut res = "impl ".to_owned();
            res.append(i.struct_cfg.name.as_str());
            res
        },
    }
}

/// The text of a type with its required traits.
pub fn type_text_of(name: &String, trait_bodies: &Vec<String>) -> (res: String)
    ensures
        res@ == type_text(name@, strings_view(trait_bodies@)),
{
    if trait_bodies.len() == 0 {
        name.clone()
    } else {
        let mut res = name.clone();
        res.append(": ");
        let joined = join_strings(trait_bodies, " + ");
        res.append(joined.as_str());
        res
    }
}

/// The text of a whole file; see `file_text`.
pub fn render_file(preamble: &Option<String>, imports: &String, body: &String) -> (res: String)
    ensures
        res@ == file_text(opt_view(*preamble), imports@, body@),
{
    let mut res = String::new();
    match preamble {
        Some(p) => {
            res.append(p.as_str());
            res.append("\n\n");
        },
        None => {},
    }
    if !imports.as_str().is_empty() {
        res.append(imports.as_str());
        res.append("\n\n");
    }
    if !body.as_str().is_empty() {
        res.append(body.as_str());
        res.append("\n");
    }
    proof {
        assert(res@ =~= file_text(opt_view(*preamble), imports@, body@));
    }
    res
}

// ---------------------------------------------------------------------------------------------
// Rendering fragments
// ---------------------------------------------------------------------------------------------

/// The texts of a sequence of fragments at the given width.
fn bodies_of_all(items: &Vec<Fragment>, width: usize) -> (res: Vec<String>)
    requires
        all_renderable(frags_view(items@), width as int),
    ensures
        strings_view(res@) == bodies_of(frags_view(items@), width as int),
    decreases items,
{
    let ghost fv = frags_view(items@);
    proof {
        lemma_frags_view(items@);
        lemma_all_renderable(fv, width as int);
        lemma_bodies_of(fv, width as int);
    }
    let mut res: Vec<String> = Vec::new();
    let mut i: usize = 0;
    while i < items.len()
        invariant
            i <= items.len(),
            fv == frags_view(items@),
            fv.len() == items@.len(),
            forall|k: int| 0 <= k < items@.len() ==> #[trigger] fv[k] == frag_view(items@[k]),
            forall|k: int| 0 <= k < items@.len() ==> renderable(#[trigger] fv[k], width as int),
            res@.len() == i,
            forall|k: int| 0 <= k < i ==> (#[trigger] res@[k])@ == body_of(fv[k], width as int),
        decreases items.len() - i,
    {
        proof {
            assert(decreases_to!(items => items[i as int]));
            assert(fv[i as int] == frag_view(items@[i as int]));
        }
        let b = items[i].body(width);
        res.push(b);
        i = i + 1;
    }
    proof {
        assert(strings_view(res@) =~= bodies_of(fv, width as int));
    }
    res
}

/// The imports of a sequence of fragments, in order.
fn imports_of_all(items: &Vec<Fragment>) -> (res: Vec<String>)
    ensures
        strings_view(res@) == imports_all(frags_view(items@)),
    decreases items,
{
    let ghost fv = frags_view(items@);
    proof {
        lemma_frags_view(items@);
    }
    let mut res: Vec<String> = Vec::new();
    let mut i: usize = 0;
    while i < items.len()
        invariant
            i <= items.len(),
            fv == frags_view(items@),
            fv.len() == items@.len(),
            forall|k: int| 0 <= k < items@.len() ==> #[trigger] fv[k] == frag_view(items@[k]),
            strings_view(res@) == imports_all(fv.take(i as int)),
        decreases items.len() - i,
    {
        proof {
            assert(decreases_to!(items => items[i as int]));
            assert(fv.take(i + 1) == fv.take(i as int).push(fv[i as int]));
            lemma_imports_all_push(fv.take(i as int), fv[i as int]);
        }
        let mut more = items[i].imports();
        res.append(&mut more);
        i = i + 1;
        proof {
            assert(strings_view(res@) =~= imports_all(fv.take(i as int)));
        }
    }
    proof {
        assert(fv.take(items.len() as int) == fv);
    }
    res
}

impl Fragment {
    /// Retrieve main body of code in this fragment, restricted to the given line width.
    pub fn body(&self, line_width: usize) -> (res: String)
        requires
            renderable(self@, line_width as int),
        ensures
            res@ == body_of(self@, line_width as int),
        decreases self,
    {
        match self {
            Fragment::Atomic(a) => a.body(line_width),
            Fragment::Appended(a) => a.body(line_width),
            Fragment::Nested(n) => n.body(line_width),
            Fragment::Call(c) => c.body(line_width),
            Fragment::Vector(v) => v.body(line_width),
            Fragment::Assert(a) => a.body(line_width),
            Fragment::Item(i) => i.body(line_width),
            Fragment::Function(f) => f.body(line_width),
            Fragment::Implementation(i) => i.body(line_width),
            Fragment::Trait(t) => t.body(line_width),
            Fragment::TypeDecl(t) => t.body(line_width),
            Fragment::Type(t) => t.body(line_width),
            Fragment::Module(m) => m.body(line_width),
        }
    }

    /// Retrieve all imports used by this fragment.
    pub fn imports(&self) -> (res: Vec<String>)
        ensures
            strings_view(res@) == imports_of(self@),
        decreases self,
    {
        match self {
            Fragment::Atomic(a) => a.imports(),
            Fragment::Appended(a) => a.imports(),
            Fragment::Nested(n) => n.imports(),
            Fragment::Call(c) => c.imports(),
            Fragment::Vector(v) => v.imports(),
            Fragment::Assert(a) => a.imports(),
            Fragment::Item(i) => i.imports(),
            Fragment::Function(f) => f.imports(),
            Fragment::Implementation(i) => i.imports(),
            Fragment::Trait(t) => t.imports(),
            Fragment::TypeDecl(t) => t.imports(),
            Fragment::Type(t) => t.imports(),
            Fragment::Module(m) => m.imports(),
        }
    }
}

/// A copy of a list of strings.
pub fn copy_strings(v: &Vec<String>) -> (res: Vec<String>)
    ensures
        strings_view(res@) == strings_view(v@),
{
    let res = v.clone();
    proof {
        assert(res@ =~= v@);
    }
    res
}

impl AtomicFragment {
    /// The atom with surrounding whitespace removed.
    pub fn body(&self, line_width: usize) -> (res: String)
        ensures
            res@ == body_of(FragmentV::Atomic(self@), line_width as int),
    {
        trim_str(self.atom.as_str())
    }

    /// The imports of the fragment.
    pub fn imports(&self) -> (res: Vec<String>)
        ensures
            strings_view(res@) == imports_of(FragmentV::Atomic(self@)),
    {
        copy_strings(&self.imports)
    }
}

impl AppendedFragment {
    /// The non-empty bodies of the components, joined by the separator.
    pub fn body(&self, line_width: usize) -> (res: String)
        requires
            renderable(FragmentV::Appended(self@), line_width as int),
        ensures
            res@ == body_of(FragmentV::Appended(self@), line_width as int),
        decreases self,
    {
        let bodies = bodies_of_all(&self.appendages, line_width);
        join_nonempty(&bodies, self.block_separator.as_str())
    }

    /// The imports of the components, in order.
    pub fn imports(&self) -> (res: Vec<String>)
        ensures
            strings_view(res@) == imports_of(FragmentV::Appended(self@)),
        decreases self,
    {
        imports_of_all(&self.appendages)
    }
}

impl NestedFragment {
    /// The preamble, the nested fragments, inline or indented, and the postamble.
    pub fn body(&self, line_width: usize) -> (res: String)
        requires
            renderable(FragmentV::Nested(self@), line_width as int),
        ensures
            res@ == body_of(FragmentV::Nested(self@), line_width as int),
        decreases self,
    {
        proof {
            lemma_frags_view(self.nesting@);
            lemma_bodies_of(frags_view(self.nesting@), line_width - INDENT_SIZE);
        }
        let bodies = if self.nesting.len() > 0 {
            bodies_of_all(&self.nesting, line_width - INDENT_SIZE)
        } else {
            Vec::new()
        };
        assert(strings_view(bodies@) =~= bodies_of(frags_view(self.nesting@), line_width - INDENT_SIZE));
        let pre = trim_str(self.preamble.atom.as_str());
        render_nested(
            pre.as_str(),
            &bodies,
            self.separator.as_str(),
            &self.nesting_postfix,
            self.postamble.as_str(),
            line_width,
        )
    }

    /// The imports of the preamble and of the nested fragments.
    pub fn imports(&self) -> (res: Vec<String>)
        ensures
            strings_view(res@) == imports_of(FragmentV::Nested(self@)),
        decreases self,
    {
        let mut res = copy_strings(&self.preamble.imports);
        let mut more = imports_of_all(&self.nesting);
        res.append(&mut more);
        proof {
            assert(strings_view(res@) =~= imports_of(FragmentV::Nested(self@)));
        }
        res
    }
}

impl FunctionCallFragment {
    /// The call with its arguments, inline or one per line.
    pub fn body(&self, line_width: usize) -> (res: String)
        requires
            renderable(FragmentV::Call(self@), line_width as int),
        ensures
            res@ == body_of(FragmentV::Call(self@), line_width as int),
        decreases self,
    {
        proof {
            lemma_frags_view(self.arguments@);
            lemma_bodies_of(frags_view(self.arguments@), line_width - INDENT_SIZE);
        }
        let bodies = if self.arguments.len() > 0 {
            bodies_of_all(&self.arguments, line_width - INDENT_SIZE)
        } else {
            Vec::new()
        };
        assert(strings_view(bodies@) =~= bodies_of(frags_view(self.arguments@), line_width - INDENT_SIZE));
        let mut pre = self.call.atom.clone();
        if self.is_macro {
            pre.append("!(");
            render_nested(pre.as_str(), &bodies, ", ", &None, ");", line_width)
        } else {
            pre.append("(");
            render_nested(pre.as_str(), &bodies, ", ", &Some(",".to_owned()), ");", line_width)
        }
    }

    /// The imports of the called function and of the arguments.
    pub fn imports(&self) -> (res: Vec<String>)
        ensures
            strings_view(res@) == imports_of(FragmentV::Call(self@)),
        decreases self,
    {
        let mut res = copy_strings(&self.call.imports);
        let mut more = imports_of_all(&self.arguments);
        res.append(&mut more);
        proof {
            assert(strings_view(res@) =~= imports_of(FragmentV::Call(self@)));
        }
        res
    }
}

impl VecFragment {
    /// The `vec!` literal with its elements, inline or one per line.
    pub fn body(&self, line_width: usize) -> (res: String)
        requires
            renderable(FragmentV::Vector(self@), line_width as int),
        ensures
            res@ == body_of(FragmentV::Vector(self@), line_width as int),
        decreases self,
    {
        proof {
            lemma_frags_view(self.elements@);
            lemma_bodies_of(frags_view(self.elements@), line_width - INDENT_SIZE);
        }
        let bodies = if self.elements.len() > 0 {
            bodies_of_all(&self.elements, line_width - INDENT_SIZE)
        } else {
            Vec::new()
        };
        assert(strings_view(bodies@) =~= bodies_of(frags_view(self.elements@), line_width - INDENT_SIZE));
        render_nested("vec![", &bodies, ", ", &None, "]", line_width)
    }

    /// The imports of the elements.
    pub fn imports(&self) -> (res: Vec<String>)
        ensures
            strings_view(res@) == imports_of(FragmentV::Vector(self@)),
        decreases self,
    {
        imports_of_all(&self.elements)
    }
}

impl AssertFragment {
    /// The `assert_eq!` invocation.
    pub fn body(&self, line_width: usize) -> (res: String)
        requires
            renderable(self@, line_width as int),
        ensures
            res@ == body_of(self@, line_width as int),
        decreases self,
    {
        let l = self.lhs.body(line_width - INDENT_SIZE);
        let r = self.rhs.body(line_width - INDENT_SIZE);
        let mut bodies: Vec<String> = Vec::new();
        bodies.push(l);
        bodies.push(r);
        proof {
            assert(strings_view(bodies@) =~= seq![
                body_of(frag_view(*self.lhs), line_width - INDENT_SIZE),
                body_of(frag_view(*self.rhs), line_width - INDENT_SIZE),
            ]);
        }
        render_nested("assert_eq!(", &bodies, ", ", &None, ");", line_width)
    }

    /// The imports of both sides.
    pub fn imports(&self) -> (res: Vec<String>)
        ensures
            strings_view(res@) == imports_of(self@),
        decreases self,
    {
        let mut res = self.lhs.imports();
        let mut more = self.rhs.imports();
        res.append(&mut more);
        proof {
            assert(strings_view(res@) =~= imports_of(self@));
        }
        res
    }
}

impl ItemDeclaration {
    /// The declaration, with its implementation in braces or followed by `;`.
    pub fn body(&self, line_width: usize) -> (res: String)
        requires
            renderable(FragmentV::Item(self@), line_width as int),
        ensures
            res@ == body_of(FragmentV::Item(self@), line_width as int),
        decreases self,
    {
        let definition = self.definition.body(line_width);
        let body = match &self.body {
            Some(b) => Some(b.body(line_width - INDENT_SIZE)),
            None => None,
        };
        render_item(
            &self.doc,
            self.public,
            &self.attributes,
            definition.as_str(),
            &body,
            line_width,
        )
    }

    /// The imports of the definition.
    pub fn imports(&self) -> (res: Vec<String>)
        ensures
            strings_view(res@) == imports_of(FragmentV::Item(self@)),
        decreases self,
    {
        self.definition.imports()
    }
}

impl FunctionFragment {
    /// The function: signature line, indented statements and closing brace.
    pub fn body(&self, line_width: usize) -> (res: String)
        requires
            renderable(FragmentV::Function(self@), line_width as int),
        ensures
            res@ == body_of(FragmentV::Function(self@), line_width as int),
        decreases self,
    {
        let pre = function_preamble_of(self);
        let bodies = bodies_of_all(&self.content.appendages, line_width - INDENT_SIZE);
        let inner = join_nonempty(&bodies, self.content.block_separator.as_str());
        render_block(pre.as_str(), inner.as_str())
    }

    /// The imports of the signature and of the statements.
    pub fn imports(&self) -> (res: Vec<String>)
        ensures
            strings_view(res@) == imports_of(FragmentV::Function(self@)),
        decreases self,
    {
        let mut res = copy_strings(&self.imports);
        let mut more = imports_of_all(&self.content.appendages);
        res.append(&mut more);
        proof {
            assert(strings_view(res@) =~= imports_of(FragmentV::Function(self@)));
        }
        res
    }
}

impl ImplementationFragment {
    /// The `impl` block with its items.
    pub fn body(&self, line_width: usize) -> (res: String)
        requires
            renderable(FragmentV::Implementation(self@), line_width as int),
        ensures
            res@ == body_of(FragmentV::Implementation(self@), line_width as int),
        decreases self,
    {
        let definition = trim_str(impl_definition_of(self).as_str());
        let inner = if self.body_is_content {
            let bodies = bodies_of_all(&self.content.appendages, line_width - INDENT_SIZE);
            join_nonempty(&bodies, self.content.block_separator.as_str())
        } else {
            match &self.declaration.body {
                Some(b) => b.body(line_width - INDENT_SIZE),
                None => String::new(),
            }
        };
        render_item(
            &self.declaration.doc,
            self.declaration.public,
            &self.declaration.attributes,
            definition.as_str(),
            &Some(inner),
            line_width,
        )
    }

    /// The imports of the items, of the trait and of the struct, unless they are defined in
    /// the same file.
    pub fn imports(&self) -> (res: Vec<String>)
        ensures
            strings_view(res@) == imports_of(FragmentV::Implementation(self@)),
        decreases self,
    {
        let mut res = imports_of_all(&self.content.appendages);
        if !self.same_file_as_trait {
            match &self.trait_cfg {
                Some(t) => res.push(t.import.clone()),
                None => {},
            }
        }
        if !self.same_file_as_struct {
            res.push(self.struct_cfg.import.clone());
        }
        proof {
            assert(strings_view(res@) =~= imports_of(FragmentV::Implementation(self@)));
        }
        res
    }
}

impl TraitFragment {
    /// The trait definition with its items.
    pub fn body(&self, line_width: usize) -> (res: String)
        requires
            renderable(FragmentV::Trait(self@), line_width as int),
        ensures
            res@ == body_of(FragmentV::Trait(self@), line_width as int),
        decreases self,
    {
        let trait_bodies = bodies_of_all(&self.trait_type.required_traits, line_width);
        let ty = type_text_of(&self.trait_type.name, &trait_bodies);
        let mut raw = "trait ".to_owned();
        raw.append(ty.as_str());
        let definition = trim_str(raw.as_str());
        let inner = if self.body_is_content {
            let bodies = bodies_of_all(&self.content.appendages, line_width - INDENT_SIZE);
            join_nonempty(&bodies, self.content.block_separator.as_str())
        } else {
            match &self.declaration.body {
                Some(b) => b.body(line_width - INDENT_SIZE),
                None => String::new(),
            }
        };
        render_item(
            &self.declaration.doc,
            self.declaration.public,
            &self.declaration.attributes,
            definition.as_str(),
            &Some(inner),
            line_width,
        )
    }

    /// The imports of the trait's requirements and of its items.
    pub fn imports(&self) -> (res: Vec<String>)
        ensures
            strings_view(res@) == imports_of(FragmentV::Trait(self@)),
        decreases self,
    {
        let mut res = self.trait_type.imports();
        let mut more = imports_of_all(&self.content.appendages);
        res.append(&mut more);
        proof {
            assert(strings_view(res@) =~= imports_of(FragmentV::Trait(self@)));
        }
        res
    }
}

impl TypeDeclaration {
    /// The `type` declaration.
    pub fn body(&self, line_width: usize) -> (res: String)
        requires
            renderable(FragmentV::TypeDecl(self@), line_width as int),
        ensures
            res@ == body_of(FragmentV::TypeDecl(self@), line_width as int),
        decreases self,
    {
        let trait_bodies = bodies_of_all(&self.declared_type.required_traits, line_width);
        let ty = type_text_of(&self.declared_type.name, &trait_bodies);
        let mut raw = "type ".to_owned();
        raw.append(ty.as_str());
        let definition = trim_str(raw.as_str());
        let body = match &self.declaration.body {
            Some(b) => Some(b.body(line_width - INDENT_SIZE)),
            None => None,
        };
        render_item(
            &self.declaration.doc,
            self.declaration.public,
            &self.declaration.attributes,
            definition.as_str(),
            &body,
            line_width,
        )
    }

    /// The imports of the declared type.
    pub fn imports(&self) -> (res: Vec<String>)
        ensures
            strings_view(res@) == imports_of(FragmentV::TypeDecl(self@)),
        decreases self,
    {
        self.declared_type.imports()
    }
}

impl TypeFragment {
    /// The type with its required traits.
    pub fn body(&self, line_width: usize) -> (res: String)
        requires
            renderable(FragmentV::Type(self@), line_width as int),
        ensures
            res@ == body_of(FragmentV::Type(self@), line_width as int),
        decreases self,
    {
        let trait_bodies = bodies_of_all(&self.required_traits, line_width);
        type_text_of(&self.name, &trait_bodies)
    }

    /// The imports of the required traits, then that of the type itself.
    pub fn imports(&self) -> (res: Vec<String>)
        ensures
            strings_view(res@) == imports_of(FragmentV::Type(self@)),
            strings_view(res@) == type_imports(self@),
        decreases self,
    {
        let mut res = imports_of_all(&self.required_traits);
        match &self.import {
            Some(i) => res.push(i.clone()),
            None => {},
        }
        proof {
            assert(strings_view(res@) =~= type_imports(self@));
        }
        res
    }
}

/// The texts of a sequence of modules at the given width.
fn module_bodies_of(modules: &Vec<ModuleFragment>, width: usize) -> (res: Vec<String>)
    requires
        all_modules_renderable(modules_view(modules@), width as int),
    ensures
        strings_view(res@) == modules_bodies(modules_view(modules@), width as int),
    decreases modules,
{
    let ghost mv = modules_view(modules@);
    proof {
        lemma_modules_view(modules@);
        lemma_all_modules_renderable(mv, width as int);
        lemma_modules_bodies(mv, width as int);
    }
    let mut res: Vec<String> = Vec::new();
    let mut i: usize = 0;
    while i < modules.len()
        invariant
            i <= modules.len(),
            mv == modules_view(modules@),
            mv.len() == modules@.len(),
            forall|k: int| 0 <= k < modules@.len() ==> #[trigger] mv[k] == module_view(modules@[k]),
            forall|k: int|
                0 <= k < modules@.len() ==> module_renderable(#[trigger] mv[k], width as int),
            res@.len() == i,
            forall|k: int|
                0 <= k < i ==> (#[trigger] res@[k])@ == module_text(mv[k], width as int),
        decreases modules.len() - i,
    {
        proof {
            assert(decreases_to!(modules => modules[i as int]));
            assert(mv[i as int] == module_view(modules@[i as int]));
        }
        let b = modules[i].body(width);
        res.push(b);
        i = i + 1;
    }
    proof {
        assert(strings_view(res@) =~= modules_bodies(mv, width as int));
    }
    res
}

/// The characters of the sort key of an optional module name.
fn name_key_of(name: &Option<String>) -> (res: Vec<char>)
    ensures
        res@ == name_key(opt_view(*name)),
{
    match name {
        Some(n) => {
            let mut res: Vec<char> = Vec::new();
            res.push('\0');
            let mut cs = chars_of(n.as_str());
            res.append(&mut cs);
            proof {
                assert(res@ =~= seq!['\0'] + n@);
            }
            res
        },
        None => Vec::new(),
    }
}

/// The bodies of the submodules with the given publicity, sorted stably by name.
fn sorted_submodule_bodies_of(
    subs: &Vec<ModuleFragment>,
    bodies: &Vec<String>,
    public: bool,
) -> (res: Vec<String>)
    requires
        bodies@.len() == subs@.len(),
    ensures
        strings_view(res@) == sorted_submodule_bodies(
            modules_view(subs@),
            strings_view(bodies@),
            public,
        ),
{
    let ghost mv = modules_view(subs@);
    proof {
        lemma_modules_view(subs@);
    }
    let ghost pred = |i: int| mv[i].public == public;
    let mut picked: Vec<usize> = Vec::new();
    let mut keys: Vec<Vec<char>> = Vec::new();
    let mut i: usize = 0;
    while i < subs.len()
        invariant
            i <= subs.len(),
            mv == modules_view(subs@),
            mv.len() == subs@.len(),
            forall|k: int| 0 <= k < subs@.len() ==> #[trigger] mv[k] == module_view(subs@[k]),
            pred == (|i: int| mv[i].public == public),
            picked@.len() == keys@.len(),
            picked@.map_values(|p: usize| p as int) == Seq::new(i as nat, |k: int| k).filter(
                pred,
            ),
            forall|q: int| 0 <= q < picked@.len() ==> #[trigger] picked@[q] < i,
            forall|q: int|
                0 <= q < keys@.len() ==> (#[trigger] keys@[q])@ == name_key(
                    mv[picked@[q] as int].name,
                ),
        decreases subs.len() - i,
    {
        proof {
            reveal(Seq::filter);
            assert(Seq::new((i + 1) as nat, |k: int| k).drop_last() == Seq::new(
                i as nat,
                |k: int| k,
            ));
            assert(mv[i as int] == module_view(subs@[i as int]));
        }
        if subs[i].public == public {
            picked.push(i);
            keys.push(name_key_of(&subs[i].name));
            proof {
                assert(picked@.map_values(|p: usize| p as int) =~= Seq::new(i as nat, |k: int| k).filter(
                    pred,
                ).push(i as int));
            }
        } else {
            proof {
                assert(picked@.map_values(|p: usize| p as int) =~= Seq::new(
                    (i + 1) as nat,
                    |k: int| k,
                ).filter(pred));
            }
        }
        i = i + 1;
    }
    let ghost picked_spec = Seq::new(subs@.len(), |k: int| k).filter(pred);
    proof {
        assert(picked_spec == picked@.map_values(|p: usize| p as int));
        assert(keys_view(keys@) =~= picked_spec.map_values(|k: int| name_key(mv[k].name)));
    }
    let chosen = arrange_strings(bodies, &picked, Ghost(picked_spec));
    let order = stable_sort_positions(&keys);
    let res = arrange_strings(&chosen, &order, Ghost(stable_order(keys_view(keys@), keys@.len())));
    res
}

impl ModuleFragment {
    /// The inside of the module: submodules, imports, re-exports and content.
    fn internals(&self, sub_bodies: &Vec<String>, content_bodies: &Vec<String>) -> (res: String)
        requires
            sub_bodies@.len() == self.submodules@.len(),
        ensures
            res@ == module_internals(self@, strings_view(sub_bodies@), strings_view(content_bodies@)),
    {
        proof {
            lemma_modules_view(self.submodules@);
        }
        let pubs = sorted_submodule_bodies_of(&self.submodules, sub_bodies, true);
        let privs = sorted_submodule_bodies_of(&self.submodules, sub_bodies, false);
        let pub_text = join_nonempty(&pubs, "\n");
        let priv_text = join_nonempty(&privs, "\n");
        let mut groups: Vec<String> = Vec::new();
        groups.push(pub_text);
        groups.push(priv_text);
        proof {
            assert(strings_view(groups@) =~= seq![pub_text@, priv_text@]);
        }
        let subs = join_nonempty(&groups, "\n\n");
        let mut imports = imports_of_all(&self.content.appendages);
        if self.test {
            imports.push("super::*".to_owned());
        }
        proof {
            assert(strings_view(imports@) =~= module_imports(self@));
        }
        let imp = imports_str_of(&imports);
        let re = re_exports_str_of(&self.re_exports);
        let content = join_nonempty(content_bodies, self.content.block_separator.as_str());
        let mut parts: Vec<String> = Vec::new();
        parts.push(subs);
        parts.push(imp);
        parts.push(re);
        parts.push(content);
        proof {
            assert(strings_view(parts@) =~= seq![subs@, imp@, re@, content@]);
        }
        join_nonempty(&parts, "\n\n")
    }

    /// The module: `mod name;` when declared only, the whole file when it takes one, and a
    /// `mod name { ... }` block otherwise.
    pub fn body(&self, line_width: usize) -> (res: String)
        requires
            module_renderable(self@, line_width as int),
        ensures
            res@ == module_text(self@, line_width as int),
            res@ == body_of(FragmentV::Module(self@), line_width as int),
        decreases self,
    {
        proof {
            assert(body_of(FragmentV::Module(self@), line_width as int) == module_text(
                self@,
                line_width as int,
            ));
        }
        if self.declare_only {
            let mut res = String::new();
            if self.public {
                res.append("pub ");
            }
            res.append("mod ");
            match &self.name {
                Some(n) => res.append(n.as_str()),
                None => {},
            }
            res.append(";");
            proof {
                assert(res@ =~= module_text(self@, line_width as int));
            }
            return res;
        }
        let w = if self.uses_entire_file {
            CODE_WIDTH
        } else {
            line_width - INDENT_SIZE
        };
        let sub_bodies = module_bodies_of(&self.submodules, w);
        proof {
            lemma_modules_view(self.submodules@);
            lemma_modules_bodies(modules_view(self.submodules@), w as int);
        }
        let content_bodies = bodies_of_all(&self.content.appendages, w);
        let internals = self.internals(&sub_bodies, &content_bodies);
        if self.uses_entire_file {
            let imports = imports_of_all(&self.content.appendages);
            let imports_text = imports_str_of(&imports);
            let preamble = match &self.doc {
                Some(d) => Some(prefix_each_line(d.as_str(), "//! ", "//!")),
                None => None,
            };
            render_file(&preamble, &imports_text, &internals)
        } else {
            let mut pre = doc_text_of(&self.doc);
            if self.test {
                pre.append("#[cfg(test)]\n");
            }
            if self.public {
                pre.append("pub ");
            }
            pre.append("mod ");
            match &self.name {
                Some(n) => pre.append(n.as_str()),
                None => {},
            }
            pre.append(" {");
            proof {
                assert(pre@ =~= doc_text(self@.doc) + (if self@.test {
                    "#[cfg(test)]\n"@
                } else {
                    Seq::empty()
                }) + pub_text(self@.public) + "mod "@ + self@.name.unwrap() + " {"@);
            }
            render_block(pre.as_str(), internals.as_str())
        }
    }

    /// Modules keep their imports to themselves: none come out.
    pub fn imports(&self) -> (res: Vec<String>)
        ensures
            strings_view(res@) == imports_of(FragmentV::Module(self@)),
    {
        let res: Vec<String> = Vec::new();
        assert(strings_view(res@) =~= Seq::<Seq<char>>::empty());
        res
    }
}

} // verus!
