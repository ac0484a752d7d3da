//! The code fragments that make up generated Rust source, and their mathematical views.
use vstd::prelude::*;
use crate::text::strings_view;

verus! {

/// A Rust item together with the path it is imported by.
pub struct StructConfig {
    /// Name of the item as it is written in code.
    pub name: String,
    /// Full import path of the item.
    pub import: String,
}

/// How a method takes its receiver.
#[derive(Clone, Copy, PartialEq, Eq, Structural)]
pub enum SelfReference {
    /// The method takes `&mut self`.
    Mutable,
    /// The method takes `&self`.
    Immutable,
}

/// Code fragment that cannot be broken down any further.
pub struct AtomicFragment {
    /// Imports for the fragment.
    pub imports: Vec<String>,
    /// Body of the fragment.
    pub atom: String,
}

/// Code fragment made of other fragments placed one after another.
pub struct AppendedFragment {
    /// Component fragments that make up this appended fragment.
    pub appendages: Vec<Fragment>,
    /// Separator between fragments when generating the body for this fragment.
    pub block_separator: String,
}

/// Code fragment that nests other fragments inside, one level of indentation deeper.
pub struct NestedFragment {
    /// Declaration for this fragment (e.g. function signature, struct name).
    pub preamble: AtomicFragment,
    /// Fragments nested inside.
    pub nesting: Vec<Fragment>,
    /// Separator between the nested fragments when they fit on one line.
    pub separator: String,
    /// Text added to the end of the last nested line when the nesting spans several lines.
    pub nesting_postfix: Option<String>,
    /// Closing for this fragment, usually a closing bracket.
    pub postamble: String,
}

/// Fragment for a function or macro call.
pub struct FunctionCallFragment {
    /// Function to actually call.
    pub call: AtomicFragment,
    /// Arguments for the call.
    pub arguments: Vec<Fragment>,
    /// Whether this is a macro call rather than a function call.
    pub is_macro: bool,
}

/// Fragment for a `vec!` literal.
pub struct VecFragment {
    /// Elements of the vector.
    pub elements: Vec<Fragment>,
}

/// Fragment for an `assert_eq!` invocation.
pub struct AssertFragment {
    /// Left-hand side of the assertion.
    pub lhs: Box<Fragment>,
    /// Right-hand side of the assertion.
    pub rhs: Box<Fragment>,
}

/// Fragment containing the modifiers shared by item declarations.
pub struct ItemDeclaration {
    /// Documentation string for the item.
    pub doc: Option<String>,
    /// Whether the item is exported out of its module.
    pub public: bool,
    /// Attributes of the item.
    pub attributes: Vec<String>,
    /// What the item is, e.g. `fn foo() -> bool`.
    pub definition: Box<Fragment>,
    /// Implementation that goes with the declaration, if any.
    pub body: Option<Box<Fragment>>,
}

/// Function argument.
pub struct FunctionArgument {
    /// Argument name.
    pub name: String,
    /// Argument type.
    pub arg_type: String,
}

/// Fragment for a function.
pub struct FunctionFragment {
    /// Name of the function.
    pub name: String,
    /// Documentation string for the function.
    pub doc: Option<String>,
    /// Whether the function is exported out of its module.
    pub public: bool,
    /// Attributes of the function.
    pub attributes: Vec<String>,
    /// How the function takes `self`, if it is a method.
    pub self_reference: Option<SelfReference>,
    /// Arguments of the function.
    pub args: Vec<FunctionArgument>,
    /// Type of data that the function returns.
    pub return_type: Option<String>,
    /// Imports needed by the arguments or the return type.
    pub imports: Vec<String>,
    /// Statements inside the function.
    pub content: AppendedFragment,
}

/// Fragment for an `impl` block, of a trait or of the struct itself.
pub struct ImplementationFragment {
    /// Lifetime variables of the implementation.
    pub lifetime_variables: Vec<char>,
    /// The trait being implemented, if any.
    pub trait_cfg: Option<StructConfig>,
    /// The struct being implemented.
    pub struct_cfg: StructConfig,
    /// Whether this implementation is in the file that defines the trait.
    pub same_file_as_trait: bool,
    /// Whether this implementation is in the file that defines the struct.
    pub same_file_as_struct: bool,
    /// Declaration modifiers of the block.
    pub declaration: ItemDeclaration,
    /// Items inside the block.
    pub content: AppendedFragment,
    /// Whether the block's body is `content` rather than the declaration's own body.
    pub body_is_content: bool,
}

/// Fragment for a trait definition.
pub struct TraitFragment {
    /// The type that the trait defines.
    pub trait_type: TypeFragment,
    /// Declaration modifiers of the trait.
    pub declaration: ItemDeclaration,
    /// Items inside the trait.
    pub content: AppendedFragment,
    /// Whether the trait's body is `content` rather than the declaration's own body.
    pub body_is_content: bool,
}

/// Fragment for a type declaration: an associated type or a type alias.
pub struct TypeDeclaration {
    /// Type being declared, with its bounds.
    pub declared_type: TypeFragment,
    /// Declaration modifiers.
    pub declaration: ItemDeclaration,
}

/// Fragment for a type with the traits it is required to implement.
pub struct TypeFragment {
    /// Name of the type.
    pub name: String,
    /// Import path of the type, where it is not being defined right here.
    pub import: Option<String>,
    /// Traits the type must implement.
    pub required_traits: Vec<Fragment>,
}

/// Fragment for a module.
pub struct ModuleFragment {
    /// Name of the module; a module that takes up an entire file needs none.
    pub name: Option<String>,
    /// Documentation of the module.
    pub doc: Option<String>,
    /// Whether the module is public.
    pub public: bool,
    /// Whether the module is a test module.
    pub test: bool,
    /// Whether only `mod name;` is generated, the contents living in a file of their own.
    pub declare_only: bool,
    /// Whether the module is generated as an entire file, without the `mod` wrapper.
    pub uses_entire_file: bool,
    /// Paths re-exported from this module.
    pub re_exports: Vec<String>,
    /// Submodules of this module.
    pub submodules: Vec<ModuleFragment>,
    /// Items inside the module.
    pub content: AppendedFragment,
}

/// Any code fragment.
pub enum Fragment {
    /// See [`AtomicFragment`].
    Atomic(AtomicFragment),
    /// See [`AppendedFragment`].
    Appended(AppendedFragment),
    /// See [`NestedFragment`].
    Nested(NestedFragment),
    /// See [`FunctionCallFragment`].
    Call(FunctionCallFragment),
    /// See [`VecFragment`].
    Vector(VecFragment),
    /// See [`AssertFragment`].
    Assert(AssertFragment),
    /// See [`ItemDeclaration`].
    Item(ItemDeclaration),
    /// See [`FunctionFragment`].
    Function(FunctionFragment),
    /// See [`ImplementationFragment`].
    Implementation(ImplementationFragment),
    /// See [`TraitFragment`].
    Trait(TraitFragment),
    /// See [`TypeDeclaration`].
    TypeDecl(TypeDeclaration),
    /// See [`TypeFragment`].
    Type(TypeFragment),
    /// See [`ModuleFragment`].
    Module(ModuleFragment),
}

// ---------------------------------------------------------------------------------------------
// Views
// ---------------------------------------------------------------------------------------------

/// View of a [`StructConfig`].
pub struct StructV {
    pub name: Seq<char>,
    pub import: Seq<char>,
}

/// View of an [`AtomicFragment`].
pub struct AtomicV {
    pub imports: Seq<Seq<char>>,
    pub atom: Seq<char>,
}

/// View of an [`AppendedFragment`].
pub struct AppendedV {
    pub items: Seq<FragmentV>,
    pub sep: Seq<char>,
}

/// View of a [`NestedFragment`].
pub struct NestedV {
    pub preamble: AtomicV,
    pub items: Seq<FragmentV>,
    pub sep: Seq<char>,
    pub postfix: Option<Seq<char>>,
    pub postamble: Seq<char>,
}

/// View of a [`FunctionCallFragment`].
pub struct CallV {
    pub call: AtomicV,
    pub args: Seq<FragmentV>,
    pub is_macro: bool,
}

/// View of an [`ItemDeclaration`].
pub struct ItemV {
    pub doc: Option<Seq<char>>,
    pub public: bool,
    pub attributes: Seq<Seq<char>>,
    pub definition: Box<FragmentV>,
    pub body: Option<Box<FragmentV>>,
}

/// View of a [`FunctionFragment`].
pub struct FunctionV {
    pub name: Seq<char>,
    pub doc: Option<Seq<char>>,
    pub public: bool,
    pub attributes: Seq<Seq<char>>,
    pub self_reference: Option<SelfReference>,
    pub args: Seq<(Seq<char>, Seq<char>)>,
    pub return_type: Option<Seq<char>>,
    pub imports: Seq<Seq<char>>,
    pub content: AppendedV,
}

/// View of an [`ImplementationFragment`].
pub struct ImplV {
    pub lifetimes: Seq<char>,
    pub trait_cfg: Option<StructV>,
    pub struct_cfg: StructV,
    pub same_file_as_trait: bool,
    pub same_file_as_struct: bool,
    pub declaration: ItemV,
    pub content: AppendedV,
    pub body_is_content: bool,
}

/// View of a [`TraitFragment`].
pub struct TraitV {
    pub trait_type: TypeV,
    pub declaration: ItemV,
    pub content: AppendedV,
    pub body_is_content: bool,
}

/// View of a [`TypeDeclaration`].
pub struct TypeDeclV {
    pub declared_type: TypeV,
    pub declaration: ItemV,
}

/// View of a [`TypeFragment`].
pub struct TypeV {
    pub name: Seq<char>,
    pub import: Option<Seq<char>>,
    pub required_traits: Seq<FragmentV>,
}

/// View of a [`ModuleFragment`].
pub struct ModuleV {
    pub name: Option<Seq<char>>,
    pub doc: Option<Seq<char>>,
    pub public: bool,
    pub test: bool,
    pub declare_only: bool,
    pub uses_entire_file: bool,
    pub re_exports: Seq<Seq<char>>,
    pub submodules: Seq<ModuleV>,
    pub content: AppendedV,
}

/// View of a [`Fragment`].
pub enum FragmentV {
    Atomic(AtomicV),
    Appended(AppendedV),
    Nested(NestedV),
    Call(CallV),
    Vector(Seq<FragmentV>),
    Assert(Box<FragmentV>, Box<FragmentV>),
    Item(ItemV),
    Function(FunctionV),
    Implementation(ImplV),
    Trait(TraitV),
    TypeDecl(TypeDeclV),
    Type(TypeV),
    Module(ModuleV),
}

/// The view of an optional string.
pub open spec fn opt_view(o: Option<String>) -> Option<Seq<char>> {
    match o {
        Some(s) => Some(s@),
        None => None,
    }
}

/// The view of a struct configuration.
pub open spec fn struct_view(c: StructConfig) -> StructV {
    StructV { name: c.name@, import: c.import@ }
}

/// The view of an optional struct configuration.
pub open spec fn opt_struct_view(o: Option<StructConfig>) -> Option<StructV> {
    match o {
        Some(c) => Some(struct_view(c)),
        None => None,
    }
}

/// The view of an atomic fragment.
pub open spec fn atomic_view(a: AtomicFragment) -> AtomicV {
    AtomicV { imports: strings_view(a.imports@), atom: a.atom@ }
}

/// The views of function arguments.
pub open spec fn args_view(v: Seq<FunctionArgument>) -> Seq<(Seq<char>, Seq<char>)> {
    v.map_values(|a: FunctionArgument| (a.name@, a.arg_type@))
}

/// The view of a fragment.
pub open spec fn frag_view(f: Fragment) -> FragmentV
    decreases f,
{
    match f {
        Fragment::Atomic(a) => FragmentV::Atomic(atomic_view(a)),
        Fragment::Appended(a) => FragmentV::Appended(appended_view(a)),
        Fragment::Nested(n) => FragmentV::Nested(nested_view(n)),
        Fragment::Call(c) => FragmentV::Call(call_view(c)),
        Fragment::Vector(v) => FragmentV::Vector(frags_view(v.elements@)),
        Fragment::Assert(a) => FragmentV::Assert(
            Box::new(frag_view(*a.lhs)),
            Box::new(frag_view(*a.rhs)),
        ),
        Fragment::Item(i) => FragmentV::Item(item_view(i)),
        Fragment::Function(fun) => FragmentV::Function(function_view(fun)),
        Fragment::Implementation(i) => FragmentV::Implementation(impl_view(i)),
        Fragment::Trait(t) => FragmentV::Trait(trait_view(t)),
        Fragment::TypeDecl(t) => FragmentV::TypeDecl(type_decl_view(t)),
        Fragment::Type(t) => FragmentV::Type(type_view(t)),
        Fragment::Module(m) => FragmentV::Module(module_view(m)),
    }
}

/// The views of a sequence of fragments.
pub open spec fn frags_view(s: Seq<Fragment>) -> Seq<FragmentV>
    decreases s,
{
    if s.len() == 0 {
        Seq::empty()
    } else {
        frags_view(s.drop_last()).push(frag_view(s.last()))
    }
}

/// The view of an appended fragment.
pub open spec fn appended_view(a: AppendedFragment) -> AppendedV
    decreases a,
{
    AppendedV { items: frags_view(a.appendages@), sep: a.block_separator@ }
}

/// The view of a nested fragment.
pub open spec fn nested_view(n: NestedFragment) -> NestedV
    decreases n,
{
    NestedV {
        preamble: atomic_view(n.preamble),
        items: frags_view(n.nesting@),
        sep: n.separator@,
        postfix: opt_view(n.nesting_postfix),
        postamble: n.postamble@,
    }
}

/// The view of a function call fragment.
pub open spec fn call_view(c: FunctionCallFragment) -> CallV
    decreases c,
{
    CallV { call: atomic_view(c.call), args: frags_view(c.arguments@), is_macro: c.is_macro }
}

/// The view of an implementation fragment.
pub open spec fn impl_view(i: ImplementationFragment) -> ImplV
    decreases i,
{
    ImplV {
        lifetimes: i.lifetime_variables@,
        trait_cfg: opt_struct_view(i.trait_cfg),
        struct_cfg: struct_view(i.struct_cfg),
        same_file_as_trait: i.same_file_as_trait,
        same_file_as_struct: i.same_file_as_struct,
        declaration: item_view(i.declaration),
        content: appended_view(i.content),
        body_is_content: i.body_is_content,
    }
}

/// The view of a trait fragment.
pub open spec fn trait_view(t: TraitFragment) -> TraitV
    decreases t,
{
    TraitV {
        trait_type: type_view(t.trait_type),
        declaration: item_view(t.declaration),
        content: appended_view(t.content),
        body_is_content: t.body_is_content,
    }
}

/// The view of a type declaration.
pub open spec fn type_decl_view(t: TypeDeclaration) -> TypeDeclV
    decreases t,
{
    TypeDeclV { declared_type: type_view(t.declared_type), declaration: item_view(t.declaration) }
}

/// The view of an item declaration.
pub open spec fn item_view(i: ItemDeclaration) -> ItemV
    decreases i,
{
    ItemV {
        doc: opt_view(i.doc),
        public: i.public,
        attributes: strings_view(i.attributes@),
        definition: Box::new(frag_view(*i.definition)),
        body: match i.body {
            Some(b) => Some(Box::new(frag_view(*b))),
            None => None,
        },
    }
}

/// The view of a function fragment.
pub open spec fn function_view(f: FunctionFragment) -> FunctionV
    decreases f,
{
    FunctionV {
        name: f.name@,
        doc: opt_view(f.doc),
        public: f.public,
        attributes: strings_view(f.attributes@),
        self_reference: f.self_reference,
        args: args_view(f.args@),
        return_type: opt_view(f.return_type),
        imports: strings_view(f.imports@),
        content: appended_view(f.content),
    }
}

/// The view of a type fragment.
pub open spec fn type_view(t: TypeFragment) -> TypeV
    decreases t,
{
    TypeV { name: t.name@, import: opt_view(t.import), required_traits: frags_view(t.required_traits@) }
}

/// The view of a module fragment.
pub open spec fn module_view(m: ModuleFragment) -> ModuleV
    decreases m,
{
    ModuleV {
        name: opt_view(m.name),
        doc: opt_view(m.doc),
        public: m.public,
        test: m.test,
        declare_only: m.declare_only,
        uses_entire_file: m.uses_entire_file,
        re_exports: strings_view(m.re_exports@),
        submodules: modules_view(m.submodules@),
        content: appended_view(m.content),
    }
}

/// The views of a sequence of modules.
pub open spec fn modules_view(s: Seq<ModuleFragment>) -> Seq<ModuleV>
    decreases s,
{
    if s.len() == 0 {
        Seq::empty()
    } else {
        modules_view(s.drop_last()).push(module_view(s.last()))
    }
}

impl View for StructConfig {
    type V = StructV;

    open spec fn view(&self) -> StructV {
        struct_view(*self)
    }
}

impl View for AtomicFragment {
    type V = AtomicV;

    open spec fn view(&self) -> AtomicV {
        atomic_view(*self)
    }
}

impl View for AppendedFragment {
    type V = AppendedV;

    open spec fn view(&self) -> AppendedV {
        appended_view(*self)
    }
}

impl View for NestedFragment {
    type V = NestedV;

    open spec fn view(&self) -> NestedV {
        nested_view(*self)
    }
}

impl View for FunctionCallFragment {
    type V = CallV;

    open spec fn view(&self) -> CallV {
        call_view(*self)
    }
}

impl View for VecFragment {
    type V = Seq<FragmentV>;

    open spec fn view(&self) -> Seq<FragmentV> {
        frags_view(self.elements@)
    }
}

impl View for AssertFragment {
    type V = FragmentV;

    open spec fn view(&self) -> FragmentV {
        frag_view(Fragment::Assert(*self))
    }
}

impl View for ItemDeclaration {
    type V = ItemV;

    open spec fn view(&self) -> ItemV {
        item_view(*self)
    }
}

impl View for FunctionFragment {
    type V = FunctionV;

    open spec fn view(&self) -> FunctionV {
        function_view(*self)
    }
}

impl View for ImplementationFragment {
    type V = ImplV;

    open spec fn view(&self) -> ImplV {
        impl_view(*self)
    }
}

impl View for TraitFragment {
    type V = TraitV;

    open spec fn view(&self) -> TraitV {
        trait_view(*self)
    }
}

impl View for TypeDeclaration {
    type V = TypeDeclV;

    open spec fn view(&self) -> TypeDeclV {
        type_decl_view(*self)
    }
}

impl View for TypeFragment {
    type V = TypeV;

    open spec fn view(&self) -> TypeV {
        type_view(*self)
    }
}

impl View for ModuleFragment {
    type V = ModuleV;

    open spec fn view(&self) -> ModuleV {
        module_view(*self)
    }
}

impl View for Fragment {
    type V = FragmentV;

    open spec fn view(&self) -> FragmentV {
        frag_view(*self)
    }
}

/// The views of a sequence of fragments, element by element.
pub proof fn lemma_frags_view(s: Seq<Fragment>)
    ensures
        frags_view(s).len() == s.len(),
        forall|i: int| 0 <= i < s.len() ==> #[trigger] frags_view(s)[i] == frag_view(s[i]),
    decreases s.len(),
{
    if s.len() > 0 {
        lemma_frags_view(s.drop_last());
    }
}

/// The views of a sequence of modules, element by element.
pub proof fn lemma_modules_view(s: Seq<ModuleFragment>)
    ensures
        modules_view(s).len() == s.len(),
        forall|i: int| 0 <= i < s.len() ==> #[trigger] modules_view(s)[i] == module_view(s[i]),
    decreases s.len(),
{
    if s.len() > 0 {
        lemma_modules_view(s.drop_last());
    }
}

/// The views of a sequence with one more fragment.
pub proof fn lemma_frags_view_push(s: Seq<Fragment>, f: Fragment)
    ensures
        frags_view(s.push(f)) == frags_view(s).push(frag_view(f)),
{
    assert(s.push(f).drop_last() == s);
}

/// The views of a sequence with one more module.
pub proof fn lemma_modules_view_push(s: Seq<ModuleFragment>, m: ModuleFragment)
    ensures
        modules_view(s.push(m)) == modules_view(s).push(module_view(m)),
{
    assert(s.push(m).drop_last() == s);
}

} // verus!
