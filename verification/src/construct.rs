//! Creating and modifying code fragments.
use vstd::prelude::*;
use crate::fragment::{
    frag_view, frags_view, lemma_frags_view, lemma_frags_view_push, lemma_modules_view_push, AppendedFragment, AppendedV,
    AssertFragment, AtomicFragment, AtomicV, CallV, Fragment, FragmentV, FunctionArgument,
    FunctionCallFragment, FunctionFragment, FunctionV, ImplV, ImplementationFragment,
    ItemDeclaration, ItemV, ModuleFragment, ModuleV, NestedFragment, NestedV, SelfReference,
    StructConfig, StructV, TraitFragment, TraitV, TypeDeclV, TypeDeclaration, TypeFragment,
    TypeV, VecFragment,
};
use crate::imports::{import_name, split_import_path};
use crate::text::strings_view;

verus! {

/// The separator between blocks of code: a blank line.
pub open spec fn block_sep() -> Seq<char> {
    "\n\n"@
}

impl StructConfig {
    /// The configuration for the item imported by `import`; its name is the last segment of the
    /// path.
    pub fn new(import: String) -> (res: Self)
        ensures
            res@ == (StructV { name: import_name(import@), import: import@ }),
    {
        let mut pieces = split_import_path(import.as_str());
        let name = pieces.pop().unwrap();
        StructConfig { name, import }
    }

    /// A configuration with an empty name and import.
    pub fn empty() -> (res: Self)
        ensures
            res@ == (StructV { name: Seq::empty(), import: Seq::empty() }),
    {
        StructConfig { name: String::new(), import: String::new() }
    }

    /// A copy of the configuration.
    pub fn duplicate(&self) -> (res: Self)
        ensures
            res@ == self@,
    {
        StructConfig { name: self.name.clone(), import: self.import.clone() }
    }
}

impl AtomicFragment {
    /// Create a new atomic fragment with no imports.
    pub fn new(atom: String) -> (res: Self)
        ensures
            res@ == (AtomicV { imports: Seq::empty(), atom: atom@ }),
    {
        let res = AtomicFragment { imports: Vec::new(), atom };
        assert(res@.imports =~= Seq::<Seq<char>>::empty());
        res
    }

    /// Create a new atomic fragment with the given imports.
    pub fn with_imports(imports: Vec<String>, atom: String) -> (res: Self)
        ensures
            res@ == (AtomicV { imports: strings_view(imports@), atom: atom@ }),
    {
        AtomicFragment { imports, atom }
    }

    /// An empty fragment without imports.
    pub fn empty() -> (res: Self)
        ensures
            res@ == (AtomicV { imports: Seq::empty(), atom: Seq::empty() }),
    {
        AtomicFragment::new(String::new())
    }
}

impl AppendedFragment {
    /// Create a new fragment with a custom separator between components.
    pub fn new_with_separator(block_separator: &str) -> (res: Self)
        ensures
            res@ == (AppendedV { items: Seq::empty(), sep: block_separator@ }),
    {
        let res = AppendedFragment { appendages: Vec::new(), block_separator: block_separator.to_owned() };
        assert(res@.items =~= Seq::<FragmentV>::empty());
        res
    }

    /// A new fragment whose components are separated by blank lines.
    pub fn new() -> (res: Self)
        ensures
            res@ == (AppendedV { items: Seq::empty(), sep: block_sep() }),
    {
        AppendedFragment::new_with_separator("\n\n")
    }

    /// Update the separator between fragments.
    pub fn set_separator(&mut self, separator: &str)
        ensures
            final(self)@ == (AppendedV { sep: separator@, ..old(self)@ }),
    {
        self.block_separator = separator.to_owned();
    }

    /// Append another code fragment to the end of this one.
    pub fn append(&mut self, other: Fragment)
        ensures
            final(self)@ == (AppendedV { items: old(self)@.items.push(other@), ..old(self)@ }),
    {
        proof {
            lemma_frags_view_push(self.appendages@, other);
        }
        self.appendages.push(other);
    }

    /// Insert another code fragment at the beginning of this one.
    pub fn prepend(&mut self, other: Fragment)
        ensures
            final(self)@ == (AppendedV { items: seq![other@] + old(self)@.items, ..old(self)@ }),
    {
        let ghost old_items = self.appendages@;
        self.appendages.insert(0, other);
        proof {
            lemma_frags_view(old_items);
            lemma_frags_view(self.appendages@);
            assert(frags_view(self.appendages@) =~= seq![frag_view(other)] + frags_view(old_items));
        }
    }

    /// Whether no fragments have been appended.
    pub fn is_empty(&self) -> (res: bool)
        ensures
            res == (self@.items.len() == 0),
    {
        proof {
            lemma_frags_view(self.appendages@);
        }
        self.appendages.len() == 0
    }
}

impl NestedFragment {
    /// Create a new nested fragment with the given preamble and postamble, nesting nothing yet.
    pub fn new(preamble: AtomicFragment, postamble: &str) -> (res: Self)
        ensures
            res@ == (NestedV {
                preamble: preamble@,
                items: Seq::empty(),
                sep: block_sep(),
                postfix: None,
                postamble: postamble@,
            }),
    {
        let res = NestedFragment {
            preamble,
            nesting: Vec::new(),
            separator: "\n\n".to_owned(),
            nesting_postfix: None,
            postamble: postamble.to_owned(),
        };
        assert(res@.items =~= Seq::<FragmentV>::empty());
        res
    }

    /// Nest another fragment inside this one, in place of whatever was nested before.
    pub fn set_nesting(&mut self, nesting: Fragment)
        ensures
            final(self)@ == (NestedV { items: seq![nesting@], ..old(self)@ }),
    {
        let mut v: Vec<Fragment> = Vec::new();
        proof {
            lemma_frags_view_push(v@, nesting);
        }
        v.push(nesting);
        self.nesting = v;
        assert(frags_view(Seq::<Fragment>::empty()) =~= Seq::<FragmentV>::empty());
    }

    /// Nest one more fragment inside this one, after those already nested.
    pub fn append(&mut self, other: Fragment)
        ensures
            final(self)@ == (NestedV { items: old(self)@.items.push(other@), ..old(self)@ }),
    {
        proof {
            lemma_frags_view_push(self.nesting@, other);
        }
        self.nesting.push(other);
    }

    /// Set the separator between nested fragments.
    pub fn set_separator(&mut self, separator: &str)
        ensures
            final(self)@ == (NestedV { sep: separator@, ..old(self)@ }),
    {
        self.separator = separator.to_owned();
    }

    /// Set the postfix for the indented nesting.
    pub fn set_nesting_postfix(&mut self, postfix: &str)
        ensures
            final(self)@ == (NestedV { postfix: Some(postfix@), ..old(self)@ }),
    {
        self.nesting_postfix = Some(postfix.to_owned());
    }
}

impl FunctionCallFragment {
    /// A call of the given function with no arguments yet.
    pub fn new(name: AtomicFragment) -> (res: Self)
        ensures
            res@ == (CallV { call: name@, args: Seq::empty(), is_macro: false }),
    {
        let res = FunctionCallFragment { call: name, arguments: Vec::new(), is_macro: false };
        assert(res@.args =~= Seq::<FragmentV>::empty());
        res
    }

    /// Add a new argument to the call.
    pub fn add_argument(&mut self, argument: Fragment)
        ensures
            final(self)@ == (CallV { args: old(self)@.args.push(argument@), ..old(self)@ }),
    {
        proof {
            lemma_frags_view_push(self.arguments@, argument);
        }
        self.arguments.push(argument);
    }

    /// Add a new argument given as text without imports.
    pub fn add_argument_str(&mut self, argument: &str)
        ensures
            final(self)@ == (CallV {
                args: old(self)@.args.push(
                    FragmentV::Atomic(AtomicV { imports: Seq::empty(), atom: argument@ }),
                ),
                ..old(self)@
            }),
    {
        self.add_argument(Fragment::Atomic(AtomicFragment::new(argument.to_owned())));
    }

    /// Mark this as a macro call instead of a function call.
    pub fn mark_macro(&mut self)
        ensures
            final(self)@ == (CallV { is_macro: true, ..old(self)@ }),
    {
        self.is_macro = true;
    }
}

impl VecFragment {
    /// An empty `vec!` literal.
    pub fn new() -> (res: Self)
        ensures
            res@ == Seq::<FragmentV>::empty(),
    {
        let res = VecFragment { elements: Vec::new() };
        assert(res@ =~= Seq::<FragmentV>::empty());
        res
    }

    /// Add a new element.
    pub fn add_element(&mut self, element: Fragment)
        ensures
            final(self)@ == old(self)@.push(element@),
    {
        proof {
            lemma_frags_view_push(self.elements@, element);
        }
        self.elements.push(element);
    }

    /// Add a new element given as text without imports.
    pub fn add_element_str(&mut self, element: &str)
        ensures
            final(self)@ == old(self)@.push(
                FragmentV::Atomic(AtomicV { imports: Seq::empty(), atom: element@ }),
            ),
    {
        self.add_element(Fragment::Atomic(AtomicFragment::new(element.to_owned())));
    }
}

impl AssertFragment {
    /// Create a new `assert_eq!` invocation.
    pub fn new_eq(lhs: Fragment, rhs: Fragment) -> (res: Self)
        ensures
            res@ == FragmentV::Assert(Box::new(lhs@), Box::new(rhs@)),
    {
        AssertFragment { lhs: Box::new(lhs), rhs: Box::new(rhs) }
    }
}

impl ItemDeclaration {
    /// A new private, undocumented declaration of the given item, without implementation.
    pub fn new(definition: Fragment) -> (res: Self)
        ensures
            res@ == (ItemV {
                doc: None,
                public: false,
                attributes: Seq::empty(),
                definition: Box::new(definition@),
                body: None,
            }),
    {
        let res = ItemDeclaration {
            doc: None,
            public: false,
            attributes: Vec::new(),
            definition: Box::new(definition),
            body: None,
        };
        assert(res@.attributes =~= Seq::<Seq<char>>::empty());
        res
    }

    /// A declaration of an empty item.
    pub fn empty() -> (res: Self)
        ensures
            res@ == (ItemV {
                doc: None,
                public: false,
                attributes: Seq::empty(),
                definition: Box::new(
                    FragmentV::Atomic(AtomicV { imports: Seq::empty(), atom: Seq::empty() }),
                ),
                body: None,
            }),
    {
        ItemDeclaration::new(Fragment::Atomic(AtomicFragment::empty()))
    }

    /// Set the fragment that defines this item.
    pub fn set_definition(&mut self, definition: Fragment)
        ensures
            final(self)@ == (ItemV { definition: Box::new(definition@), ..old(self)@ }),
    {
        self.definition = Box::new(definition);
    }

    /// Mark this as a public declaration.
    pub fn mark_as_public(&mut self)
        ensures
            final(self)@ == (ItemV { public: true, ..old(self)@ }),
    {
        self.public = true;
    }

    /// Whether this has been marked as a public declaration.
    pub fn is_public(&self) -> (res: bool)
        ensures
            res == self@.public,
    {
        self.public
    }

    /// Set the documentation for the item.
    pub fn document(&mut self, documentation: String)
        ensures
            final(self)@ == (ItemV { doc: Some(documentation@), ..old(self)@ }),
    {
        self.doc = Some(documentation);
    }

    /// Add an attribute to the declaration.
    pub fn add_attribute(&mut self, attribute: String)
        ensures
            final(self)@ == (ItemV {
                attributes: old(self)@.attributes.push(attribute@),
                ..old(self)@
            }),
    {
        self.attributes.push(attribute);
        assert(strings_view(self.attributes@) =~= strings_view(old(self).attributes@).push(
            attribute@,
        ));
    }

    /// Set an implementation to go along with the declaration.
    pub fn set_body(&mut self, body: Fragment)
        ensures
            final(self)@ == (ItemV { body: Some(Box::new(body@)), ..old(self)@ }),
    {
        self.body = Some(Box::new(body));
    }

    /// Declare the item without implementing it.
    pub fn mark_as_declare_only(&mut self)
        ensures
            final(self)@ == (ItemV { body: None, ..old(self)@ }),
    {
        self.body = None;
    }

    /// Require an implementation, an empty one if none has been set.
    pub fn mark_for_full_implementation(&mut self)
        ensures
            final(self)@ == (ItemV {
                body: match old(self)@.body {
                    Some(b) => Some(b),
                    None => Some(
                        Box::new(
                            FragmentV::Atomic(AtomicV { imports: Seq::empty(), atom: Seq::empty() }),
                        ),
                    ),
                },
                ..old(self)@
            }),
    {
        if self.body.is_none() {
            self.body = Some(Box::new(Fragment::Atomic(AtomicFragment::empty())));
        }
    }
}

impl FunctionArgument {
    /// Create a new argument with the given name and type.
    pub fn new(name: String, arg_type: String) -> (res: Self)
        ensures
            res.name@ == name@,
            res.arg_type@ == arg_type@,
    {
        FunctionArgument { name, arg_type }
    }
}

impl FunctionFragment {
    /// A new private function with the given name, without arguments, return type or content.
    pub fn new(name: String) -> (res: Self)
        ensures
            res@ == (FunctionV {
                name: name@,
                doc: None,
                public: false,
                attributes: Seq::empty(),
                self_reference: None,
                args: Seq::empty(),
                return_type: None,
                imports: Seq::empty(),
                content: AppendedV { items: Seq::empty(), sep: "\n"@ },
            }),
    {
        let res = FunctionFragment {
            name,
            doc: None,
            public: false,
            attributes: Vec::new(),
            self_reference: None,
            args: Vec::new(),
            return_type: None,
            imports: Vec::new(),
            content: AppendedFragment::new_with_separator("\n"),
        };
        assert(res@.attributes =~= Seq::<Seq<char>>::empty());
        assert(res@.args =~= Seq::<(Seq<char>, Seq<char>)>::empty());
        assert(res@.imports =~= Seq::<Seq<char>>::empty());
        res
    }

    /// Set documentation for the function.
    pub fn set_documentation(&mut self, doc: String)
        ensures
            final(self)@ == (FunctionV { doc: Some(doc@), ..old(self)@ }),
    {
        self.doc = Some(doc);
    }

    /// Set documentation for the function.
    pub fn document(&mut self, doc: String)
        ensures
            final(self)@ == (FunctionV { doc: Some(doc@), ..old(self)@ }),
    {
        self.doc = Some(doc);
    }

    /// Set the function to be public.
    pub fn make_public(&mut self)
        ensures
            final(self)@ == (FunctionV { public: true, ..old(self)@ }),
    {
        self.public = true;
    }

    /// Set the function to be public.
    pub fn mark_as_public(&mut self)
        ensures
            final(self)@ == (FunctionV { public: true, ..old(self)@ }),
    {
        self.public = true;
    }

    /// Whether the function is public.
    pub fn is_public(&self) -> (res: bool)
        ensures
            res == self@.public,
    {
        self.public
    }

    /// Add an attribute to the function.
    pub fn add_attribute(&mut self, attribute: String)
        ensures
            final(self)@ == (FunctionV {
                attributes: old(self)@.attributes.push(attribute@),
                ..old(self)@
            }),
    {
        self.attributes.push(attribute);
        assert(strings_view(self.attributes@) =~= strings_view(old(self).attributes@).push(
            attribute@,
        ));
    }

    /// Mark the function as a test.
    pub fn mark_as_test(&mut self)
        ensures
            final(self)@ == (FunctionV {
                attributes: old(self)@.attributes.push("test"@),
                ..old(self)@
            }),
    {
        self.add_attribute("test".to_owned());
    }

    /// Make the function a method that takes `self` in the given way.
    pub fn set_self_reference(&mut self, self_reference: SelfReference)
        ensures
            final(self)@ == (FunctionV { self_reference: Some(self_reference), ..old(self)@ }),
    {
        self.self_reference = Some(self_reference);
    }

    /// Set the return type for the function.
    pub fn set_return(&mut self, return_type: String)
        ensures
            final(self)@ == (FunctionV { return_type: Some(return_type@), ..old(self)@ }),
    {
        self.return_type = Some(return_type);
    }

    /// Add a new argument to the function.
    pub fn add_arg(&mut self, name: String, arg_type: String)
        ensures
            final(self)@ == (FunctionV {
                args: old(self)@.args.push((name@, arg_type@)),
                ..old(self)@
            }),
    {
        self.args.push(FunctionArgument::new(name, arg_type));
        assert(crate::fragment::args_view(self.args@) =~= crate::fragment::args_view(
            old(self).args@,
        ).push((name@, arg_type@)));
    }

    /// Add a new import for the arguments or the return type.
    pub fn add_import(&mut self, import: String)
        ensures
            final(self)@ == (FunctionV { imports: old(self)@.imports.push(import@), ..old(self)@ }),
    {
        self.imports.push(import);
        assert(strings_view(self.imports@) =~= strings_view(old(self).imports@).push(import@));
    }

    /// Add a statement to the end of the function.
    pub fn append(&mut self, fragment: Fragment)
        ensures
            final(self)@ == (FunctionV {
                content: AppendedV {
                    items: old(self)@.content.items.push(fragment@),
                    ..old(self)@.content
                },
                ..old(self)@
            }),
    {
        self.content.append(fragment);
    }
}

impl ImplementationFragment {
    /// An implementation of the struct itself.
    pub fn new_struct_impl(struct_cfg: StructConfig) -> (res: Self)
        ensures
            res@ == (ImplV {
                lifetimes: Seq::empty(),
                trait_cfg: None,
                struct_cfg: struct_cfg@,
                same_file_as_trait: false,
                same_file_as_struct: false,
                declaration: ItemDeclaration::empty_view(),
                content: AppendedV { items: Seq::empty(), sep: block_sep() },
                body_is_content: true,
            }),
    {
        let res = ImplementationFragment {
            lifetime_variables: Vec::new(),
            trait_cfg: None,
            struct_cfg,
            same_file_as_trait: false,
            same_file_as_struct: false,
            declaration: ItemDeclaration::empty(),
            content: AppendedFragment::new(),
            body_is_content: true,
        };
        assert(res@.lifetimes =~= Seq::<char>::empty());
        res
    }

    /// An implementation of the trait for the struct.
    pub fn new_trait_impl(trait_cfg: StructConfig, struct_cfg: StructConfig) -> (res: Self)
        ensures
            res@ == (ImplV {
                lifetimes: Seq::empty(),
                trait_cfg: Some(trait_cfg@),
                struct_cfg: struct_cfg@,
                same_file_as_trait: false,
                same_file_as_struct: false,
                declaration: ItemDeclaration::empty_view(),
                content: AppendedV { items: Seq::empty(), sep: block_sep() },
                body_is_content: true,
            }),
    {
        let mut res = ImplementationFragment::new_struct_impl(struct_cfg);
        res.trait_cfg = Some(trait_cfg);
        res
    }

    /// Mark this implementation as being in the file that defines the trait.
    pub fn mark_same_file_as_trait(&mut self)
        ensures
            final(self)@ == (ImplV { same_file_as_trait: true, ..old(self)@ }),
    {
        self.same_file_as_trait = true;
    }

    /// Mark this implementation as being in the file that defines the struct.
    pub fn mark_same_file_as_struct(&mut self)
        ensures
            final(self)@ == (ImplV { same_file_as_struct: true, ..old(self)@ }),
    {
        self.same_file_as_struct = true;
    }

    /// Add a new lifetime variable to this implementation.
    pub fn add_lifetime(&mut self, lifetime: char)
        ensures
            final(self)@ == (ImplV { lifetimes: old(self)@.lifetimes.push(lifetime), ..old(self)@ }),
    {
        self.lifetime_variables.push(lifetime);
    }

    /// Append an item to the implementation.
    pub fn append(&mut self, fragment: Fragment)
        ensures
            final(self)@ == (ImplV {
                content: AppendedV {
                    items: old(self)@.content.items.push(fragment@),
                    ..old(self)@.content
                },
                ..old(self)@
            }),
    {
        self.content.append(fragment);
    }

    /// Insert an item at the beginning of the implementation.
    pub fn prepend(&mut self, fragment: Fragment)
        ensures
            final(self)@ == (ImplV {
                content: AppendedV {
                    items: seq![fragment@] + old(self)@.content.items,
                    ..old(self)@.content
                },
                ..old(self)@
            }),
    {
        self.content.prepend(fragment);
    }

    /// Whether no items have been added.
    pub fn is_empty(&self) -> (res: bool)
        ensures
            res == (self@.content.items.len() == 0),
    {
        self.content.is_empty()
    }

    /// Mark this as a public declaration.
    pub fn mark_as_public(&mut self)
        ensures
            final(self)@ == (ImplV {
                declaration: ItemV { public: true, ..old(self)@.declaration },
                ..old(self)@
            }),
    {
        self.declaration.mark_as_public();
    }

    /// Whether this has been marked public.
    pub fn is_public(&self) -> (res: bool)
        ensures
            res == self@.declaration.public,
    {
        self.declaration.is_public()
    }

    /// Set the documentation.
    pub fn document(&mut self, documentation: String)
        ensures
            final(self)@ == (ImplV {
                declaration: ItemV { doc: Some(documentation@), ..old(self)@.declaration },
                ..old(self)@
            }),
    {
        self.declaration.document(documentation);
    }

    /// Add an attribute.
    pub fn add_attribute(&mut self, attribute: String)
        ensures
            final(self)@ == (ImplV {
                declaration: ItemV {
                    attributes: old(self)@.declaration.attributes.push(attribute@),
                    ..old(self)@.declaration
                },
                ..old(self)@
            }),
    {
        self.declaration.add_attribute(attribute);
    }

    /// Use the given fragment as the body of the block instead of its items.
    pub fn set_body(&mut self, body: Fragment)
        ensures
            final(self)@ == (ImplV {
                declaration: ItemV { body: Some(Box::new(body@)), ..old(self)@.declaration },
                body_is_content: false,
                ..old(self)@
            }),
    {
        self.declaration.set_body(body);
        self.body_is_content = false;
    }

    /// Drop the body of the block; it is rendered empty.
    pub fn mark_as_declare_only(&mut self)
        ensures
            final(self)@ == (ImplV {
                declaration: ItemV { body: None, ..old(self)@.declaration },
                body_is_content: false,
                ..old(self)@
            }),
    {
        self.declaration.mark_as_declare_only();
        self.body_is_content = false;
    }
}

impl ItemDeclaration {
    /// The view of `ItemDeclaration::empty()`.
    pub open spec fn empty_view() -> ItemV {
        ItemV {
            doc: None,
            public: false,
            attributes: Seq::empty(),
            definition: Box::new(
                FragmentV::Atomic(AtomicV { imports: Seq::empty(), atom: Seq::empty() }),
            ),
            body: None,
        }
    }
}

impl TypeFragment {
    /// A type with the given name, without import or requirements.
    pub fn new(name: String) -> (res: Self)
        ensures
            res@ == (TypeV { name: name@, import: None, required_traits: Seq::empty() }),
    {
        let res = TypeFragment { name, import: None, required_traits: Vec::new() };
        assert(res@.required_traits =~= Seq::<FragmentV>::empty());
        res
    }

    /// Add a trait requirement.
    pub fn add_required_trait(&mut self, required_trait: Fragment)
        ensures
            final(self)@ == (TypeV {
                required_traits: old(self)@.required_traits.push(required_trait@),
                ..old(self)@
            }),
    {
        proof {
            lemma_frags_view_push(self.required_traits@, required_trait);
        }
        self.required_traits.push(required_trait);
    }

    /// Set the import path for this type.
    pub fn set_import(&mut self, import: String)
        ensures
            final(self)@ == (TypeV { import: Some(import@), ..old(self)@ }),
    {
        self.import = Some(import);
    }
}

impl TypeDeclaration {
    /// A declaration of the type with the given name.
    pub fn new(name: String) -> (res: Self)
        ensures
            res@ == (TypeDeclV {
                declared_type: TypeV { name: name@, import: None, required_traits: Seq::empty() },
                declaration: ItemDeclaration::empty_view(),
            }),
    {
        TypeDeclaration { declared_type: TypeFragment::new(name), declaration: ItemDeclaration::empty() }
    }

    /// Add a trait requirement.
    pub fn add_required_trait(&mut self, required_trait: Fragment)
        ensures
            final(self)@ == (TypeDeclV {
                declared_type: TypeV {
                    required_traits: old(self)@.declared_type.required_traits.push(
                        required_trait@,
                    ),
                    ..old(self)@.declared_type
                },
                ..old(self)@
            }),
    {
        self.declared_type.add_required_trait(required_trait);
    }

    /// Mark this as a public declaration.
    pub fn mark_as_public(&mut self)
        ensures
            final(self)@ == (TypeDeclV {
                declaration: ItemV { public: true, ..old(self)@.declaration },
                ..old(self)@
            }),
    {
        self.declaration.mark_as_public();
    }

    /// Set the documentation.
    pub fn document(&mut self, documentation: String)
        ensures
            final(self)@ == (TypeDeclV {
                declaration: ItemV { doc: Some(documentation@), ..old(self)@.declaration },
                ..old(self)@
            }),
    {
        self.declaration.document(documentation);
    }

    /// Add an attribute.
    pub fn add_attribute(&mut self, attribute: String)
        ensures
            final(self)@ == (TypeDeclV {
                declaration: ItemV {
                    attributes: old(self)@.declaration.attributes.push(attribute@),
                    ..old(self)@.declaration
                },
                ..old(self)@
            }),
    {
        self.declaration.add_attribute(attribute);
    }

    /// Set the type that the declaration stands for.
    pub fn set_body(&mut self, body: Fragment)
        ensures
            final(self)@ == (TypeDeclV {
                declaration: ItemV { body: Some(Box::new(body@)), ..old(self)@.declaration },
                ..old(self)@
            }),
    {
        self.declaration.set_body(body);
    }
}

impl TraitFragment {
    /// A new trait with the given name.
    pub fn new(name: String) -> (res: Self)
        ensures
            res@ == (TraitV {
                trait_type: TypeV { name: name@, import: None, required_traits: Seq::empty() },
                declaration: ItemDeclaration::empty_view(),
                content: AppendedV { items: Seq::empty(), sep: block_sep() },
                body_is_content: true,
            }),
    {
        TraitFragment {
            trait_type: TypeFragment::new(name),
            declaration: ItemDeclaration::empty(),
            content: AppendedFragment::new(),
            body_is_content: true,
        }
    }

    /// Add a trait requirement.
    pub fn add_required_trait(&mut self, required_trait: Fragment)
        ensures
            final(self)@ == (TraitV {
                trait_type: TypeV {
                    required_traits: old(self)@.trait_type.required_traits.push(required_trait@),
                    ..old(self)@.trait_type
                },
                ..old(self)@
            }),
    {
        self.trait_type.add_required_trait(required_trait);
    }

    /// Add an associated type, before the other items.
    pub fn add_associated_type(&mut self, associated_type: TypeDeclaration)
        ensures
            final(self)@ == (TraitV {
                content: AppendedV {
                    items: seq![FragmentV::TypeDecl(associated_type@)] + old(self)@.content.items,
                    ..old(self)@.content
                },
                ..old(self)@
            }),
    {
        self.content.prepend(Fragment::TypeDecl(associated_type));
    }

    /// Append an item to the trait.
    pub fn append(&mut self, fragment: Fragment)
        ensures
            final(self)@ == (TraitV {
                content: AppendedV {
                    items: old(self)@.content.items.push(fragment@),
                    ..old(self)@.content
                },
                ..old(self)@
            }),
    {
        self.content.append(fragment);
    }

    /// Insert an item at the beginning of the trait.
    pub fn prepend(&mut self, fragment: Fragment)
        ensures
            final(self)@ == (TraitV {
                content: AppendedV {
                    items: seq![fragment@] + old(self)@.content.items,
                    ..old(self)@.content
                },
                ..old(self)@
            }),
    {
        self.content.prepend(fragment);
    }

    /// Whether no items have been added.
    pub fn is_empty(&self) -> (res: bool)
        ensures
            res == (self@.content.items.len() == 0),
    {
        self.content.is_empty()
    }

    /// Mark this as a public declaration.
    pub fn mark_as_public(&mut self)
        ensures
            final(self)@ == (TraitV {
                declaration: ItemV { public: true, ..old(self)@.declaration },
                ..old(self)@
            }),
    {
        self.declaration.mark_as_public();
    }

    /// Set the documentation.
    pub fn document(&mut self, documentation: String)
        ensures
            final(self)@ == (TraitV {
                declaration: ItemV { doc: Some(documentation@), ..old(self)@.declaration },
                ..old(self)@
            }),
    {
        self.declaration.document(documentation);
    }

    /// Add an attribute.
    pub fn add_attribute(&mut self, attribute: String)
        ensures
            final(self)@ == (TraitV {
                declaration: ItemV {
                    attributes: old(self)@.declaration.attributes.push(attribute@),
                    ..old(self)@.declaration
                },
                ..old(self)@
            }),
    {
        self.declaration.add_attribute(attribute);
    }
}

impl ModuleFragment {
    /// The view of a fresh module with the given name.
    pub open spec fn fresh_view(name: Option<Seq<char>>) -> ModuleV {
        ModuleV {
            name: name,
            doc: None,
            public: false,
            test: false,
            declare_only: false,
            uses_entire_file: false,
            re_exports: Seq::empty(),
            submodules: Seq::empty(),
            content: AppendedV { items: Seq::empty(), sep: block_sep() },
        }
    }

    fn fresh(name: Option<String>) -> (res: Self)
        ensures
            res@ == ModuleFragment::fresh_view(crate::fragment::opt_view(name)),
    {
        let res = ModuleFragment {
            name,
            doc: None,
            public: false,
            test: false,
            declare_only: false,
            uses_entire_file: false,
            re_exports: Vec::new(),
            submodules: Vec::new(),
            content: AppendedFragment::new(),
        };
        assert(res@.re_exports =~= Seq::<Seq<char>>::empty());
        assert(res@.submodules =~= Seq::<ModuleV>::empty());
        res
    }

    /// A new module with the given name.
    pub fn new(name: String) -> (res: Self)
        ensures
            res@ == ModuleFragment::fresh_view(Some(name@)),
    {
        ModuleFragment::fresh(Some(name))
    }

    /// A new module that takes up an entire file.
    pub fn new_file_module() -> (res: Self)
        ensures
            res@ == (ModuleV { uses_entire_file: true, ..ModuleFragment::fresh_view(None) }),
    {
        let mut res = ModuleFragment::fresh(None);
        res.uses_entire_file = true;
        res
    }

    /// A new test module named `tests`.
    pub fn new_test_module() -> (res: Self)
        ensures
            res@ == (ModuleV { test: true, ..ModuleFragment::fresh_view(Some("tests"@)) }),
    {
        let mut res = ModuleFragment::new("tests".to_owned());
        res.mark_as_test();
        res
    }

    /// Mark the module as public.
    pub fn mark_as_public(&mut self)
        ensures
            final(self)@ == (ModuleV { public: true, ..old(self)@ }),
    {
        self.public = true;
    }

    /// Only declare the module, its contents living in a file of their own.
    pub fn mark_as_declare_only(&mut self)
        ensures
            final(self)@ == (ModuleV { declare_only: true, ..old(self)@ }),
    {
        self.declare_only = true;
    }

    /// Generate the module with its contents.
    pub fn mark_for_full_implementation(&mut self)
        ensures
            final(self)@ == (ModuleV { declare_only: false, ..old(self)@ }),
    {
        self.declare_only = false;
    }

    /// Add a submodule, declared only, and hand it back for further changes.
    pub fn add_submodule(&mut self, name: String) -> (res: &mut ModuleFragment)
        ensures
            res@ == ModuleFragment::new_declared_view(name@),
            final(self)@ == (ModuleV {
                submodules: old(self)@.submodules.push(final(res)@),
                ..old(self)@
            }),
    {
        let mut sub = ModuleFragment::new(name);
        sub.mark_as_declare_only();
        let ghost before = self.submodules@;
        self.submodules.push(sub);
        let k = self.submodules.len() - 1;
        let ghost after_push = self.submodules@;
        let r = &mut self.submodules[k];
        proof {
            assert(after_push.update(k as int, *final(r)) =~= before.push(*final(r)));
            lemma_modules_view_push(before, *final(r));
        }
        r
    }

    /// The view of a submodule just added by `add_submodule`.
    pub open spec fn new_declared_view(name: Seq<char>) -> ModuleV {
        ModuleV { declare_only: true, ..ModuleFragment::fresh_view(Some(name)) }
    }

    /// Mark the module as a test module.
    pub fn mark_as_test(&mut self)
        ensures
            final(self)@ == (ModuleV { test: true, ..old(self)@ }),
    {
        self.test = true;
    }

    /// Generate the module as an entire file, without the `mod` wrapper.
    pub fn mark_as_entire_file(&mut self)
        ensures
            final(self)@ == (ModuleV { uses_entire_file: true, ..old(self)@ }),
    {
        self.uses_entire_file = true;
    }

    /// Re-export something so that it looks like it comes from this module.
    pub fn re_export(&mut self, export: String)
        ensures
            final(self)@ == (ModuleV { re_exports: old(self)@.re_exports.push(export@), ..old(self)@ }),
    {
        self.re_exports.push(export);
        assert(strings_view(self.re_exports@) =~= strings_view(old(self).re_exports@).push(export@));
    }

    /// Set the documentation of the module.
    pub fn document(&mut self, documentation: String)
        ensures
            final(self)@ == (ModuleV { doc: Some(documentation@), ..old(self)@ }),
    {
        self.doc = Some(documentation);
    }

    /// Add a fragment to the contents of this module.
    pub fn append(&mut self, fragment: Fragment)
        ensures
            final(self)@ == (ModuleV {
                content: AppendedV {
                    items: old(self)@.content.items.push(fragment@),
                    ..old(self)@.content
                },
                ..old(self)@
            }),
    {
        self.content.append(fragment);
    }
}

impl Default for StructConfig {
    fn default() -> (res: Self)
        ensures
            res@ == (StructV { name: Seq::empty(), import: Seq::empty() }),
    {
        StructConfig::empty()
    }
}

impl Default for AtomicFragment {
    fn default() -> (res: Self)
        ensures
            res@ == (AtomicV { imports: Seq::empty(), atom: Seq::empty() }),
    {
        AtomicFragment::empty()
    }
}

impl Default for AppendedFragment {
    fn default() -> (res: Self)
        ensures
            res@ == (AppendedV { items: Seq::empty(), sep: block_sep() }),
    {
        AppendedFragment::new()
    }
}

impl Default for ItemDeclaration {
    fn default() -> (res: Self)
        ensures
            res@ == ItemDeclaration::empty_view(),
    {
        ItemDeclaration::empty()
    }
}

impl Default for ImplementationFragment {
    /// An implementation for a struct with an empty name and import.
    fn default() -> (res: Self)
        ensures
            res@ == (ImplV {
                lifetimes: Seq::empty(),
                trait_cfg: None,
                struct_cfg: StructV { name: Seq::empty(), import: Seq::empty() },
                same_file_as_trait: false,
                same_file_as_struct: false,
                declaration: ItemDeclaration::empty_view(),
                content: AppendedV { items: Seq::empty(), sep: block_sep() },
                body_is_content: true,
            }),
    {
        ImplementationFragment::new_struct_impl(StructConfig::empty())
    }
}

impl Default for TraitFragment {
    /// A trait with an empty name.
    fn default() -> (res: Self)
        ensures
            res@ == (TraitV {
                trait_type: TypeV { name: Seq::empty(), import: None, required_traits: Seq::empty() },
                declaration: ItemDeclaration::empty_view(),
                content: AppendedV { items: Seq::empty(), sep: block_sep() },
                body_is_content: true,
            }),
    {
        TraitFragment::new(String::new())
    }
}

} // verus!
