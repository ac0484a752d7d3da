//! The template for the file that adds every concept to the knowledge graph.
use vstd::prelude::*;
use super::util::{function_v, plain};
use crate::construct::block_sep;
use crate::file::{file_code, file_renderable, FileFragment, FileV};
use crate::fragment::{
    AppendedV, AtomicFragment, AtomicV, CallV, Fragment, FragmentV, FunctionCallFragment,
    FunctionFragment, FunctionV, StructConfig,
};
use crate::layout::{
    all_modules_renderable, all_renderable, body_of, bodies_of, docstring, lemma_all_renderable,
    lemma_bodies_of, renderable, CODE_WIDTH,
};
use crate::text::{
    contains_seq, drop_empty, join, join_strings, lemma_trim_keeps, prefix_each_line, strings_view,
};

verus! {

/// A binary relation between two concepts.
pub struct Link {
    /// The struct name of the from-node.
    pub from: StructConfig,
    /// The struct name of the link type.
    pub link_type: StructConfig,
    /// The struct name of the to-node.
    pub to: StructConfig,
}

impl Default for Link {
    /// A link between empty configurations.
    fn default() -> (res: Self)
        ensures
            res.from.name@.len() == 0 && res.link_type.name@.len() == 0 && res.to.name@.len() == 0,
    {
        Link { from: StructConfig::empty(), link_type: StructConfig::empty(), to: StructConfig::empty() }
    }
}

/// Configuration values for the knowledge base initialization template.
pub struct KBInitConfig {
    /// The concepts to be initialized.
    pub concepts_to_initialize: Vec<StructConfig>,
    /// The binary relations between concepts.
    pub attributes: Vec<Link>,
}

impl Default for KBInitConfig {
    /// No concepts and no relations.
    fn default() -> (res: Self)
        ensures
            res.concepts_to_initialize@.len() == 0,
            res.attributes@.len() == 0,
    {
        KBInitConfig { concepts_to_initialize: Vec::new(), attributes: Vec::new() }
    }
}

/// The ID of a concept's type, importing the concept.
pub open spec fn concept_id_view(concept: StructConfig) -> FragmentV {
    FragmentV::Atomic(AtomicV { imports: seq![concept.import@], atom: concept.name@ + "::TYPE_ID"@ })
}

/// Get the ID of a concept's type, importing the concept.
pub fn concept_id_fragment(concept: &StructConfig) -> (res: AtomicFragment)
    ensures
        FragmentV::Atomic(res@) == concept_id_view(*concept),
{
    let mut atom = concept.name.clone();
    atom.append("::TYPE_ID");
    let res = super::tao::atom_with_import(concept.import.as_str(), atom.as_str());
    res
}

/// The call that adds a relation between two concepts to the graph.
pub open spec fn add_edge_view(link: Link) -> FragmentV {
    FragmentV::Call(
        CallV {
            call: AtomicV { imports: Seq::empty(), atom: "ig.add_edge"@ },
            args: seq![
                concept_id_view(link.from),
                concept_id_view(link.link_type),
                concept_id_view(link.to),
            ],
            is_macro: false,
        },
    )
}

/// The statements that create the graph and initialize every concept type in it.
pub open spec fn init_types_text(cfg: KBInitConfig) -> Seq<char> {
    "let mut ig = InjectionGraph::new();\n#[rustfmt::skip]\ninitialize_type!(\n    ig,\n    (\n        "@
        + join(cfg.concepts_to_initialize@.map_values(|c: StructConfig| c.name@), ",\n        "@)
        + "\n    )\n);\n"@
}

/// The function that adds all concepts to the knowledge graph.
pub open spec fn init_types_view(cfg: KBInitConfig) -> FunctionV {
    function_v(
        "initialize_types"@,
        Some("Adds all concepts to knowledge graph."@),
        true,
        Seq::empty(),
        None,
        Seq::empty(),
        None,
        seq![
            "zamm_yin::graph::InjectionGraph"@,
            "zamm_yin::graph::Graph"@,
            "zamm_yin::initialize_type"@,
            "zamm_yin::tao::archetype::ArchetypeTrait"@,
            "zamm_yin::tao::relation::attribute::Inherits"@,
        ] + cfg.concepts_to_initialize@.map_values(|c: StructConfig| c.import@),
        seq![plain(init_types_text(cfg))] + cfg.attributes@.map_values(|l: Link| add_edge_view(l)),
    )
}

/// Get the function that initializes the concept types. The caller still chooses which graph
/// binding to use and initializes it, and initializes the archetype relations.
pub fn init_types_fragment(cfg: &KBInitConfig) -> (res: FunctionFragment)
    ensures
        res@ == init_types_view(*cfg),
{
    let mut init_fn = FunctionFragment::new("initialize_types".to_owned());
    init_fn.mark_as_public();
    init_fn.document("Adds all concepts to knowledge graph.".to_owned());
    init_fn.add_import("zamm_yin::graph::InjectionGraph".to_owned());
    init_fn.add_import("zamm_yin::graph::Graph".to_owned());
    init_fn.add_import("zamm_yin::initialize_type".to_owned());
    init_fn.add_import("zamm_yin::tao::archetype::ArchetypeTrait".to_owned());
    init_fn.add_import("zamm_yin::tao::relation::attribute::Inherits".to_owned());
    let ghost base_imports = init_fn@.imports;
    let concepts = &cfg.concepts_to_initialize;
    let mut names: Vec<String> = Vec::new();
    let mut i: usize = 0;
    while i < concepts.len()
        invariant
            i <= concepts.len(),
            init_fn@ == (FunctionV {
                imports: base_imports + concepts@.take(i as int).map_values(
                    |c: StructConfig| c.import@,
                ),
                ..init_fn@
            }),
            init_fn@.content.items.len() == 0,
            init_fn@.name == "initialize_types"@,
            init_fn@.doc == Some("Adds all concepts to knowledge graph."@),
            init_fn@.public,
            init_fn@.attributes.len() == 0,
            init_fn@.self_reference is None,
            init_fn@.args.len() == 0,
            init_fn@.return_type is None,
            init_fn@.content.sep == "\n"@,
            base_imports == seq![
                "zamm_yin::graph::InjectionGraph"@,
                "zamm_yin::graph::Graph"@,
                "zamm_yin::initialize_type"@,
                "zamm_yin::tao::archetype::ArchetypeTrait"@,
                "zamm_yin::tao::relation::attribute::Inherits"@,
            ],
            names@.len() == i,
            forall|k: int| 0 <= k < i ==> (#[trigger] names@[k])@ == concepts@[k].name@,
        decreases concepts.len() - i,
    {
        init_fn.add_import(concepts[i].import.clone());
        names.push(concepts[i].name.clone());
        i = i + 1;
        assert(init_fn@.imports =~= base_imports + concepts@.take(i as int).map_values(
            |c: StructConfig| c.import@,
        ));
    }
    assert(concepts@.take(concepts.len() as int) == concepts@);
    assert(strings_view(names@) =~= concepts@.map_values(|c: StructConfig| c.name@));
    let list = join_strings(&names, ",\n        ");
    let mut code =
        "let mut ig = InjectionGraph::new();\n#[rustfmt::skip]\ninitialize_type!(\n    ig,\n    (\n        ".to_owned();
    code.append(list.as_str());
    code.append("\n    )\n);\n");
    assert(code@ =~= init_types_text(*cfg));
    init_fn.append(Fragment::Atomic(AtomicFragment::new(code)));
    let ghost first = init_fn@.content.items;
    let mut j: usize = 0;
    while j < cfg.attributes.len()
        invariant
            j <= cfg.attributes.len(),
            init_fn@ == (FunctionV {
                content: AppendedV {
                    items: first + cfg.attributes@.take(j as int).map_values(
                        |l: Link| add_edge_view(l),
                    ),
                    ..init_fn@.content
                },
                ..init_fn@
            }),
            first == seq![plain(init_types_text(*cfg))],
            init_fn@.imports == init_types_view(*cfg).imports,
            init_fn@.name == "initialize_types"@,
            init_fn@.doc == Some("Adds all concepts to knowledge graph."@),
            init_fn@.public,
            init_fn@.attributes.len() == 0,
            init_fn@.self_reference is None,
            init_fn@.args.len() == 0,
            init_fn@.return_type is None,
            init_fn@.content.sep == "\n"@,
        decreases cfg.attributes.len() - j,
    {
        let link = &cfg.attributes[j];
        let mut add_edge = FunctionCallFragment::new(AtomicFragment::new("ig.add_edge".to_owned()));
        add_edge.add_argument(Fragment::Atomic(concept_id_fragment(&link.from)));
        add_edge.add_argument(Fragment::Atomic(concept_id_fragment(&link.link_type)));
        add_edge.add_argument(Fragment::Atomic(concept_id_fragment(&link.to)));
        assert(add_edge@.args =~~= seq![
            concept_id_view(link.from),
            concept_id_view(link.link_type),
            concept_id_view(link.to),
        ]);
        assert(FragmentV::Call(add_edge@) =~~= add_edge_view(*link));
        init_fn.append(Fragment::Call(add_edge));
        j = j + 1;
        assert(init_fn@.content.items =~~= first + cfg.attributes@.take(j as int).map_values(
            |l: Link| add_edge_view(l),
        ));
    }
    assert(cfg.attributes@.take(cfg.attributes.len() as int) == cfg.attributes@);
    assert(init_fn@.attributes =~= Seq::<Seq<char>>::empty());
    assert(init_fn@.args =~= Seq::<(Seq<char>, Seq<char>)>::empty());
    assert(init_fn@ =~~= init_types_view(*cfg));
    init_fn
}

/// The character of a decimal digit.
pub open spec fn digit_char(d: nat) -> char {
    if d == 0 {
        '0'
    } else if d == 1 {
        '1'
    } else if d == 2 {
        '2'
    } else if d == 3 {
        '3'
    } else if d == 4 {
        '4'
    } else if d == 5 {
        '5'
    } else if d == 6 {
        '6'
    } else if d == 7 {
        '7'
    } else if d == 8 {
        '8'
    } else {
        '9'
    }
}

/// The decimal notation of a number.
pub open spec fn decimal(n: nat) -> Seq<char>
    decreases n,
{
    if n < 10 {
        seq![digit_char(n)]
    } else {
        decimal(n / 10).push(digit_char(n % 10))
    }
}

/// Whether a character is a decimal digit.
pub open spec fn is_digit(c: char) -> bool {
    '0' <= c && c <= '9'
}

/// The number that a decimal digit stands for.
pub open spec fn digit_value(c: char) -> int {
    (c as u32) - 48
}

/// The number that a base-10 numeral stands for, its most significant digit first.
pub open spec fn numeral_value(s: Seq<char>) -> int
    decreases s.len(),
{
    if s.len() == 0 {
        0
    } else {
        numeral_value(s.drop_last()) * 10 + digit_value(s.last())
    }
}

/// The decimal notation of a number is a numeral of digits, without leading zeros, that reads
/// back as the number.
pub proof fn lemma_decimal_reads_back(n: nat)
    ensures
        decimal(n).len() > 0,
        forall|i: int| 0 <= i < decimal(n).len() ==> is_digit(#[trigger] decimal(n)[i]),
        numeral_value(decimal(n)) == n,
        n > 0 ==> decimal(n)[0] != '0',
        decimal(n).len() > 1 ==> decimal(n)[0] != '0',
    decreases n,
{
    if n < 10 {
        assert(decimal(n) == seq![digit_char(n)]);
        assert(seq![digit_char(n)].drop_last() =~= Seq::<char>::empty());
        assert(digit_value(digit_char(n)) == n);
        assert(numeral_value(Seq::<char>::empty()) == 0);
        assert(numeral_value(seq![digit_char(n)]) == digit_value(digit_char(n)));
    } else {
        let q = n / 10;
        let r = n % 10;
        lemma_decimal_reads_back(q);
        let d = decimal(q);
        assert(decimal(n) == d.push(digit_char(r)));
        assert(d.push(digit_char(r)).drop_last() =~= d);
        assert(digit_value(digit_char(r)) == r);
        assert(q * 10 + r == n);
        assert(numeral_value(d.push(digit_char(r))) == numeral_value(d) * 10 + digit_value(
            digit_char(r),
        ));
        assert(d.push(digit_char(r))[0] == d[0]);
        assert forall|i: int| 0 <= i < decimal(n).len() implies is_digit(#[trigger] decimal(n)[i]) by {
            if i < d.len() {
                assert(decimal(n)[i] == d[i]);
            }
        }
    }
}

fn digit_of(d: usize) -> (c: char)
    requires
        d < 10,
    ensures
        c == digit_char(d as nat),
{
    if d == 0 {
        '0'
    } else if d == 1 {
        '1'
    } else if d == 2 {
        '2'
    } else if d == 3 {
        '3'
    } else if d == 4 {
        '4'
    } else if d == 5 {
        '5'
    } else if d == 6 {
        '6'
    } else if d == 7 {
        '7'
    } else if d == 8 {
        '8'
    } else {
        '9'
    }
}

/// The decimal notation of a number.
pub fn decimal_of(n: usize) -> (res: String)
    ensures
        res@ == decimal(n as nat),
    decreases n,
{
    if n < 10 {
        let mut res = String::new();
        res.push(digit_of(n));
        res
    } else {
        let mut res = decimal_of(n / 10);
        res.push(digit_of(n % 10));
        res
    }
}

/// The documentation of the maximum concept ID.
pub open spec fn max_id_doc() -> Seq<char> {
    "The maximum concept ID inside the types distributed by Yin itself. App-specific type concepts should continue their numbering on top of this."@
}

/// The constant that holds the largest ID of the concepts, which are numbered from zero.
pub open spec fn max_id_text(cfg: KBInitConfig) -> Seq<char> {
    docstring(max_id_doc()) + "\npub const YIN_MAX_ID: usize = "@ + decimal(
        (cfg.concepts_to_initialize@.len() - 1) as nat,
    ) + ";\n"@
}

/// Get the constant that holds the largest ID of the concepts.
pub fn max_id_fragment(cfg: &KBInitConfig) -> (res: AtomicFragment)
    requires
        cfg.concepts_to_initialize@.len() > 0,
    ensures
        res@ == (AtomicV { imports: Seq::empty(), atom: max_id_text(*cfg) }),
{
    let mut code = prefix_each_line(
        "The maximum concept ID inside the types distributed by Yin itself. App-specific type concepts should continue their numbering on top of this.",
        "/// ",
        "///",
    );
    code.append("\npub const YIN_MAX_ID: usize = ");
    let n = decimal_of(cfg.concepts_to_initialize.len() - 1);
    code.append(n.as_str());
    code.append(";\n");
    assert(code@ =~= max_id_text(*cfg));
    AtomicFragment::new(code)
}

/// The file that initializes the knowledge base, in the given crate.
pub open spec fn init_file_view(cfg: KBInitConfig, current_crate: Seq<char>) -> FileV {
    FileV {
        preamble: None,
        contents: AppendedV {
            items: seq![
                FragmentV::Atomic(AtomicV { imports: Seq::empty(), atom: max_id_text(cfg) }),
                FragmentV::Function(init_types_view(cfg)),
            ],
            sep: block_sep(),
        },
        tests: super::tao::tests_module(Seq::empty()),
        self_import: None,
        current_crate: Some(current_crate),
    }
}

/// Get the file that initializes the knowledge base.
pub fn init_file_fragment(cfg: &KBInitConfig, current_crate: &str) -> (res: FileFragment)
    requires
        cfg.concepts_to_initialize@.len() > 0,
    ensures
        res@ == init_file_view(*cfg, current_crate@),
{
    let mut file = FileFragment::new();
    file.append(Fragment::Atomic(max_id_fragment(cfg)));
    file.append(Fragment::Function(init_types_fragment(cfg)));
    file.set_current_crate(current_crate.to_owned());
    assert(file@.contents.items =~~= init_file_view(*cfg, current_crate@).contents.items);
    assert(file@.tests.content.items =~~= Seq::<FragmentV>::empty());
    assert(file@ =~~= init_file_view(*cfg, current_crate@));
    file
}

proof fn lemma_init_file_renderable(cfg: KBInitConfig, current_crate: Seq<char>)
    ensures
        file_renderable(init_file_view(cfg, current_crate)),
{
    let f = init_types_view(cfg);
    let items = f.content.items;
    assert forall|i: int| 0 <= i < items.len() implies #[trigger] renderable(items[i], 76) by {
        if i > 0 {
            let l = cfg.attributes@[i - 1];
            let args = seq![concept_id_view(l.from), concept_id_view(l.link_type), concept_id_view(l.to)];
            assert forall|k: int| 0 <= k < args.len() implies #[trigger] renderable(args[k], 72) by {}
            lemma_all_renderable(args, 72);
            assert(items[i] == add_edge_view(l));
        }
    }
    lemma_all_renderable(items, 76);
    let contents = init_file_view(cfg, current_crate).contents.items;
    assert forall|i: int| 0 <= i < contents.len() implies #[trigger] renderable(contents[i], 80) by {}
    lemma_all_renderable(contents, 80);
    assert(all_renderable(Seq::<FragmentV>::empty(), 80));
    assert(all_modules_renderable(Seq::<crate::fragment::ModuleV>::empty(), 80));
}

/// The file that initializes the knowledge base declares the largest concept ID, one less than
/// the number of concepts, and its initializing function adds one relation per attribute, in
/// the order of the attributes, after creating the concept types.
pub proof fn lemma_init_code(cfg: KBInitConfig, current_crate: Seq<char>)
    requires
        cfg.concepts_to_initialize@.len() > 0,
    ensures
        contains_seq(
            file_code(init_file_view(cfg, current_crate)),
            "pub const YIN_MAX_ID: usize = "@ + decimal((cfg.concepts_to_initialize@.len() - 1) as nat)
                + ";"@,
        ),
        init_types_view(cfg).content.items == seq![plain(init_types_text(cfg))]
            + cfg.attributes@.map_values(|l: Link| add_edge_view(l)),
        numeral_value(decimal((cfg.concepts_to_initialize@.len() - 1) as nat))
            == cfg.concepts_to_initialize@.len() - 1,
{
    lemma_decimal_reads_back((cfg.concepts_to_initialize@.len() - 1) as nat);
    let d = decimal((cfg.concepts_to_initialize@.len() - 1) as nat);
    let line = "pub const YIN_MAX_ID: usize = "@ + d + ";"@;
    reveal_strlit("\npub const YIN_MAX_ID: usize = ");
    reveal_strlit("pub const YIN_MAX_ID: usize = ");
    reveal_strlit(";\n");
    reveal_strlit(";");
    let doc = docstring(max_id_doc());
    let m = max_id_text(cfg);
    let pos: int = doc.len() as int + 1;
    assert(m.subrange(pos, pos + line.len()) =~= line);
    assert(m[pos] == 'p');
    assert(m[pos + line.len() - 1] == ';');
    lemma_trim_keeps(m, pos, line.len() as int);
    let t = crate::text::trim(m);
    let q = choose|q: int| 0 <= q <= t.len() - line.len() && #[trigger] t.subrange(q, q + line.len()) == line;
    let f = init_file_view(cfg, current_crate);
    let items = f.contents.items;
    lemma_bodies_of(items, CODE_WIDTH as int);
    let fb = body_of(items[1], CODE_WIDTH as int);
    assert(body_of(items[0], CODE_WIDTH as int) == t);
    let bs = bodies_of(items, CODE_WIDTH as int);
    assert(bs =~= seq![t, fb]);
    assert(bs.drop_last() =~= seq![t]);
    assert(seq![t].drop_last() =~= Seq::<Seq<char>>::empty());
    assert(line.len() > 0 && t.len() > 0);
    assert(drop_empty(seq![t].drop_last()) == Seq::<Seq<char>>::empty());
    assert(Seq::<Seq<char>>::empty().push(t) =~= seq![t]);
    assert(drop_empty(seq![t]) =~= seq![t]);
    assert(join(seq![t], block_sep()) == t);
    let body = join(drop_empty(bs), block_sep());
    if fb.len() > 0 {
        assert(drop_empty(bs) =~= seq![t, fb]);
        assert(seq![t, fb].drop_last() =~= seq![t]);
        assert(body == t + block_sep() + fb);
        assert(body.subrange(q, q + line.len()) =~= line);
    } else {
        assert(drop_empty(bs) =~= seq![t]);
        assert(body == t);
    }
    assert(body.subrange(q, q + line.len()) == line);
    let parts = crate::file::file_parts(f);
    assert(f.tests.content.items.len() == 0);
    assert(parts == seq![FragmentV::Appended(f.contents)]);
    lemma_bodies_of(parts, CODE_WIDTH as int);
    let pb = bodies_of(parts, CODE_WIDTH as int);
    assert(pb =~= seq![body]);
    assert(pb.drop_last() =~= Seq::<Seq<char>>::empty());
    assert(drop_empty(pb) =~= seq![body]);
    let whole = join(drop_empty(pb), block_sep());
    assert(whole == body);
    let imps = crate::imports::imports_text(crate::file::file_imports(f));
    let front: Seq<char> = if imps.len() > 0 {
        imps + "\n\n"@
    } else {
        Seq::empty()
    };
    let code = file_code(f);
    assert(code == Seq::<char>::empty() + front + (body + "\n"@));
    assert(code.subrange(front.len() + q, front.len() + q + line.len()) =~= line);
    assert(init_types_view(cfg).content.items =~= seq![plain(init_types_text(cfg))]
        + cfg.attributes@.map_values(|l: Link| add_edge_view(l)));
}

/// Generate the code of the file that initializes the knowledge base, whose imports from
/// `current_crate` are written relative to `crate`.
pub fn code_init(cfg: &KBInitConfig, current_crate: &str) -> (res: String)
    requires
        cfg.concepts_to_initialize@.len() > 0,
    ensures
        res@ == file_code(init_file_view(*cfg, current_crate@)),
{
    let file = init_file_fragment(cfg, current_crate);
    proof {
        lemma_init_file_renderable(*cfg, current_crate@);
    }
    file.generate_code()
}

} // verus!
