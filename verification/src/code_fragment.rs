//! The common interface of all code fragments: the imports they need and their text at a line
//! width.
use vstd::prelude::*;
use crate::fragment::{
    AppendedV, AtomicV, ImplV, ItemV, TraitV, AppendedFragment, AssertFragment, AtomicFragment, Fragment, FragmentV, FunctionCallFragment,
    FunctionFragment, ImplementationFragment, ItemDeclaration, ModuleFragment, NestedFragment,
    TraitFragment, TypeDeclaration, TypeFragment, VecFragment,
};
use crate::layout::{body_of, imports_of, renderable};
use crate::text::strings_view;

verus! {

/// A fragment of code that can be appended to or nested within other fragments.
pub trait CodeFragment {
    /// The fragment in the model of code fragments.
    spec fn fragment(&self) -> FragmentV;

    /// Retrieve all imports used by this fragment.
    fn imports(&self) -> (res: Vec<String>)
        ensures
            strings_view(res@) == imports_of(self.fragment()),
    ;

    /// Retrieve main body of code in this fragment, restricted to the given line width.
    fn body(&self, line_width: usize) -> (res: String)
        requires
            renderable(self.fragment(), line_width as int),
        ensures
            res@ == body_of(self.fragment(), line_width as int),
    ;
}

impl CodeFragment for AtomicFragment {
    open spec fn fragment(&self) -> FragmentV {
        FragmentV::Atomic(self@)
    }

    fn imports(&self) -> (res: Vec<String>) {
        AtomicFragment::imports(self)
    }

    fn body(&self, line_width: usize) -> (res: String) {
        AtomicFragment::body(self, line_width)
    }
}

impl CodeFragment for AppendedFragment {
    open spec fn fragment(&self) -> FragmentV {
        FragmentV::Appended(self@)
    }

    fn imports(&self) -> (res: Vec<String>) {
        AppendedFragment::imports(self)
    }

    fn body(&self, line_width: usize) -> (res: String) {
        AppendedFragment::body(self, line_width)
    }
}

impl CodeFragment for NestedFragment {
    open spec fn fragment(&self) -> FragmentV {
        FragmentV::Nested(self@)
    }

    fn imports(&self) -> (res: Vec<String>) {
        NestedFragment::imports(self)
    }

    fn body(&self, line_width: usize) -> (res: String) {
        NestedFragment::body(self, line_width)
    }
}

impl CodeFragment for FunctionCallFragment {
    open spec fn fragment(&self) -> FragmentV {
        FragmentV::Call(self@)
    }

    fn imports(&self) -> (res: Vec<String>) {
        FunctionCallFragment::imports(self)
    }

    fn body(&self, line_width: usize) -> (res: String) {
        FunctionCallFragment::body(self, line_width)
    }
}

impl CodeFragment for VecFragment {
    open spec fn fragment(&self) -> FragmentV {
        FragmentV::Vector(self@)
    }

    fn imports(&self) -> (res: Vec<String>) {
        VecFragment::imports(self)
    }

    fn body(&self, line_width: usize) -> (res: String) {
        VecFragment::body(self, line_width)
    }
}

impl CodeFragment for AssertFragment {
    open spec fn fragment(&self) -> FragmentV {
        self@
    }

    fn imports(&self) -> (res: Vec<String>) {
        AssertFragment::imports(self)
    }

    fn body(&self, line_width: usize) -> (res: String) {
        AssertFragment::body(self, line_width)
    }
}

impl CodeFragment for ItemDeclaration {
    open spec fn fragment(&self) -> FragmentV {
        FragmentV::Item(self@)
    }

    fn imports(&self) -> (res: Vec<String>) {
        ItemDeclaration::imports(self)
    }

    fn body(&self, line_width: usize) -> (res: String) {
        ItemDeclaration::body(self, line_width)
    }
}

impl CodeFragment for FunctionFragment {
    open spec fn fragment(&self) -> FragmentV {
        FragmentV::Function(self@)
    }

    fn imports(&self) -> (res: Vec<String>) {
        FunctionFragment::imports(self)
    }

    fn body(&self, line_width: usize) -> (res: String) {
        FunctionFragment::body(self, line_width)
    }
}

impl CodeFragment for ImplementationFragment {
    open spec fn fragment(&self) -> FragmentV {
        FragmentV::Implementation(self@)
    }

    fn imports(&self) -> (res: Vec<String>) {
        ImplementationFragment::imports(self)
    }

    fn body(&self, line_width: usize) -> (res: String) {
        ImplementationFragment::body(self, line_width)
    }
}

impl CodeFragment for TraitFragment {
    open spec fn fragment(&self) -> FragmentV {
        FragmentV::Trait(self@)
    }

    fn imports(&self) -> (res: Vec<String>) {
        TraitFragment::imports(self)
    }

    fn body(&self, line_width: usize) -> (res: String) {
        TraitFragment::body(self, line_width)
    }
}

impl CodeFragment for TypeDeclaration {
    open spec fn fragment(&self) -> FragmentV {
        FragmentV::TypeDecl(self@)
    }

    fn imports(&self) -> (res: Vec<String>) {
        TypeDeclaration::imports(self)
    }

    fn body(&self, line_width: usize) -> (res: String) {
        TypeDeclaration::body(self, line_width)
    }
}

impl CodeFragment for TypeFragment {
    open spec fn fragment(&self) -> FragmentV {
        FragmentV::Type(self@)
    }

    fn imports(&self) -> (res: Vec<String>) {
        TypeFragment::imports(self)
    }

    fn body(&self, line_width: usize) -> (res: String) {
        TypeFragment::body(self, line_width)
    }
}

impl CodeFragment for ModuleFragment {
    open spec fn fragment(&self) -> FragmentV {
        FragmentV::Module(self@)
    }

    fn imports(&self) -> (res: Vec<String>) {
        ModuleFragment::imports(self)
    }

    fn body(&self, line_width: usize) -> (res: String) {
        ModuleFragment::body(self, line_width)
    }
}

impl CodeFragment for Fragment {
    open spec fn fragment(&self) -> FragmentV {
        self@
    }

    fn imports(&self) -> (res: Vec<String>) {
        Fragment::imports(self)
    }

    fn body(&self, line_width: usize) -> (res: String) {
        Fragment::body(self, line_width)
    }
}

/// A fragment that further fragments can be added to. For a nested fragment, the added
/// fragments may show up nested within its body.
pub trait Appendable: CodeFragment {
    /// The fragments added so far, with their separator.
    spec fn contents(&self) -> AppendedV;

    /// The fragment with its added fragments replaced by `c`.
    spec fn with_contents(&self, c: AppendedV) -> FragmentV;

    /// Append other code fragment into this one.
    fn append(&mut self, other: Fragment)
        ensures
            final(self).fragment() == old(self).with_contents(
                AppendedV { items: old(self).contents().items.push(other@), ..old(self).contents() },
            ),
    ;

    /// Prepend other code fragment at the beginning of this one.
    fn prepend(&mut self, other: Fragment)
        ensures
            final(self).fragment() == old(self).with_contents(
                AppendedV { items: seq![other@] + old(self).contents().items, ..old(self).contents() },
            ),
    ;

    /// Returns true if no fragments have been appended into this one.
    fn is_empty(&self) -> (res: bool)
        ensures
            res == (self.contents().items.len() == 0),
    ;
}

impl Appendable for AppendedFragment {
    open spec fn contents(&self) -> AppendedV {
        self@
    }

    open spec fn with_contents(&self, c: AppendedV) -> FragmentV {
        FragmentV::Appended(c)
    }

    fn append(&mut self, other: Fragment) {
        AppendedFragment::append(self, other)
    }

    fn prepend(&mut self, other: Fragment) {
        AppendedFragment::prepend(self, other)
    }

    fn is_empty(&self) -> (res: bool) {
        AppendedFragment::is_empty(self)
    }
}

impl Appendable for ImplementationFragment {
    open spec fn contents(&self) -> AppendedV {
        self@.content
    }

    open spec fn with_contents(&self, c: AppendedV) -> FragmentV {
        FragmentV::Implementation(ImplV { content: c, ..self@ })
    }

    fn append(&mut self, other: Fragment) {
        ImplementationFragment::append(self, other)
    }

    fn prepend(&mut self, other: Fragment) {
        ImplementationFragment::prepend(self, other)
    }

    fn is_empty(&self) -> (res: bool) {
        ImplementationFragment::is_empty(self)
    }
}

impl Appendable for TraitFragment {
    open spec fn contents(&self) -> AppendedV {
        self@.content
    }

    open spec fn with_contents(&self, c: AppendedV) -> FragmentV {
        FragmentV::Trait(TraitV { content: c, ..self@ })
    }

    fn append(&mut self, other: Fragment) {
        TraitFragment::append(self, other)
    }

    fn prepend(&mut self, other: Fragment) {
        TraitFragment::prepend(self, other)
    }

    fn is_empty(&self) -> (res: bool) {
        TraitFragment::is_empty(self)
    }
}

/// The implementation that a declaration gets when a full one is required and none is set: an
/// empty fragment.
pub open spec fn empty_body() -> Option<Box<FragmentV>> {
    Some(Box::new(FragmentV::Atomic(AtomicV { imports: Seq::empty(), atom: Seq::empty() })))
}

/// The declaration that an impl or trait block renders with: its items as the body while they
/// have not been replaced, else the body set on the declaration.
pub open spec fn block_declaration(declaration: ItemV, content: AppendedV, body_is_content: bool) -> ItemV {
    if body_is_content {
        ItemV { body: Some(Box::new(FragmentV::Appended(content))), ..declaration }
    } else {
        declaration
    }
}

/// The universal modifiers of an item declaration.
pub trait ItemDeclarationAPI: CodeFragment {
    /// The declaration as it is rendered.
    spec fn declaration(&self) -> ItemV;

    /// Mark this as a public declaration.
    fn mark_as_public(&mut self)
        ensures
            final(self).declaration() == (ItemV { public: true, ..old(self).declaration() }),
    ;

    /// Whether this has been marked as a public declaration or not.
    fn is_public(&self) -> (res: bool)
        ensures
            res == self.declaration().public,
    ;

    /// Set the documentation for the fragment.
    fn document(&mut self, documentation: String)
        ensures
            final(self).declaration() == (ItemV {
                doc: Some(documentation@),
                ..old(self).declaration()
            }),
    ;

    /// Add an attribute to the declaration.
    fn add_attribute(&mut self, attribute: String)
        ensures
            final(self).declaration() == (ItemV {
                attributes: old(self).declaration().attributes.push(attribute@),
                ..old(self).declaration()
            }),
    ;

    /// Set an implementation to go along with the declaration.
    fn set_body(&mut self, body: Fragment)
        ensures
            final(self).declaration() == (ItemV {
                body: Some(Box::new(body@)),
                ..old(self).declaration()
            }),
    ;

    /// Declares the item without implementing it.
    fn mark_as_declare_only(&mut self)
        ensures
            final(self).declaration() == (ItemV { body: None, ..old(self).declaration() }),
    ;

    /// Mark the item as requiring full implementation, even if that implementation is an empty
    /// one.
    fn mark_for_full_implementation(&mut self)
        ensures
            final(self).declaration() == (ItemV {
                body: if old(self).declaration().body is None {
                    empty_body()
                } else {
                    old(self).declaration().body
                },
                ..old(self).declaration()
            }),
    ;
}

impl ItemDeclarationAPI for ItemDeclaration {
    open spec fn declaration(&self) -> ItemV {
        self@
    }

    fn mark_as_public(&mut self) {
        ItemDeclaration::mark_as_public(self)
    }

    fn is_public(&self) -> (res: bool) {
        ItemDeclaration::is_public(self)
    }

    fn document(&mut self, documentation: String) {
        ItemDeclaration::document(self, documentation)
    }

    fn add_attribute(&mut self, attribute: String) {
        ItemDeclaration::add_attribute(self, attribute)
    }

    fn set_body(&mut self, body: Fragment) {
        ItemDeclaration::set_body(self, body)
    }

    fn mark_as_declare_only(&mut self) {
        ItemDeclaration::mark_as_declare_only(self)
    }

    fn mark_for_full_implementation(&mut self) {
        ItemDeclaration::mark_for_full_implementation(self)
    }
}

impl ItemDeclarationAPI for TypeDeclaration {
    open spec fn declaration(&self) -> ItemV {
        self@.declaration
    }

    fn mark_as_public(&mut self) {
        TypeDeclaration::mark_as_public(self)
    }

    fn is_public(&self) -> (res: bool) {
        self.declaration.is_public()
    }

    fn document(&mut self, documentation: String) {
        TypeDeclaration::document(self, documentation)
    }

    fn add_attribute(&mut self, attribute: String) {
        TypeDeclaration::add_attribute(self, attribute)
    }

    fn set_body(&mut self, body: Fragment) {
        TypeDeclaration::set_body(self, body)
    }

    fn mark_as_declare_only(&mut self) {
        self.declaration.mark_as_declare_only()
    }

    fn mark_for_full_implementation(&mut self) {
        self.declaration.mark_for_full_implementation()
    }
}

impl ItemDeclarationAPI for ImplementationFragment {
    open spec fn declaration(&self) -> ItemV {
        block_declaration(self@.declaration, self@.content, self@.body_is_content)
    }

    fn mark_as_public(&mut self) {
        ImplementationFragment::mark_as_public(self)
    }

    fn is_public(&self) -> (res: bool) {
        ImplementationFragment::is_public(self)
    }

    fn document(&mut self, documentation: String) {
        ImplementationFragment::document(self, documentation)
    }

    fn add_attribute(&mut self, attribute: String) {
        ImplementationFragment::add_attribute(self, attribute)
    }

    fn set_body(&mut self, body: Fragment) {
        ImplementationFragment::set_body(self, body)
    }

    fn mark_as_declare_only(&mut self) {
        ImplementationFragment::mark_as_declare_only(self)
    }

    fn mark_for_full_implementation(&mut self) {
        if !self.body_is_content {
            self.declaration.mark_for_full_implementation();
        }
    }
}

impl ItemDeclarationAPI for TraitFragment {
    open spec fn declaration(&self) -> ItemV {
        block_declaration(self@.declaration, self@.content, self@.body_is_content)
    }

    fn mark_as_public(&mut self) {
        TraitFragment::mark_as_public(self)
    }

    fn is_public(&self) -> (res: bool) {
        self.declaration.is_public()
    }

    fn document(&mut self, documentation: String) {
        TraitFragment::document(self, documentation)
    }

    fn add_attribute(&mut self, attribute: String) {
        TraitFragment::add_attribute(self, attribute)
    }

    fn set_body(&mut self, body: Fragment) {
        self.declaration.set_body(body);
        self.body_is_content = false;
    }

    fn mark_as_declare_only(&mut self) {
        self.declaration.mark_as_declare_only();
        self.body_is_content = false;
    }

    fn mark_for_full_implementation(&mut self) {
        if !self.body_is_content {
            self.declaration.mark_for_full_implementation();
        }
    }
}

} // verus!
