//! A whole file of generated code: preamble, imports, contents and a test module.
use vstd::prelude::*;
use crate::construct::block_sep;
use crate::fragment::{
    opt_view, AppendedFragment, AppendedV, AtomicFragment, AtomicV, Fragment, FragmentV,
    ModuleFragment, ModuleV,
};
use crate::imports::{imports_str_of, imports_text, lemma_no_imports_no_text};
use crate::order::lemma_filter_count;
use crate::layout::{
    body_of, bodies_of, imports_all, file_text, imports_of, lemma_bodies_of, module_renderable, renderable,
    CODE_WIDTH,
};
use crate::text::{drop_empty, has_prefix, join, join_nonempty, starts_with, strings_view, trim, trim_str};

verus! {

/// Fragment for an entire code file.
pub struct FileFragment {
    /// Text at the top of the file, such as inner attributes or module documentation.
    pub preamble: Option<AtomicFragment>,
    /// Contents of the file.
    pub contents: AppendedFragment,
    /// The test module of the file.
    pub tests: ModuleFragment,
    /// Import of what the file itself defines, left out of its imports.
    pub self_import: Option<String>,
    /// Name of the crate the file belongs to; its imports are written relative to `crate`.
    pub current_crate: Option<String>,
}

/// View of a [`FileFragment`].
pub struct FileV {
    pub preamble: Option<AtomicV>,
    pub contents: AppendedV,
    pub tests: ModuleV,
    pub self_import: Option<Seq<char>>,
    pub current_crate: Option<Seq<char>>,
}

impl View for FileFragment {
    type V = FileV;

    open spec fn view(&self) -> FileV {
        FileV {
            preamble: match self.preamble {
                Some(p) => Some(p@),
                None => None,
            },
            contents: self.contents@,
            tests: self.tests@,
            self_import: opt_view(self.self_import),
            current_crate: opt_view(self.current_crate),
        }
    }
}

/// An import written relative to `crate` when it starts with the name of the current crate.
pub open spec fn relative_import(crate_name: Seq<char>, import: Seq<char>) -> Seq<char> {
    if starts_with(import, crate_name + "::"@) {
        "crate"@ + import.skip(crate_name.len() as int)
    } else {
        import
    }
}

/// The fragments that make up the body of a file: its contents, then its test module if it has
/// any tests.
pub open spec fn file_parts(f: FileV) -> Seq<FragmentV> {
    if f.tests.content.items.len() > 0 {
        seq![FragmentV::Appended(f.contents), FragmentV::Module(f.tests)]
    } else {
        seq![FragmentV::Appended(f.contents)]
    }
}

/// The imports of a file: those of its contents, without the file's own import, written
/// relative to `crate`.
pub open spec fn file_imports(f: FileV) -> Seq<Seq<char>> {
    let own = imports_of(FragmentV::Appended(f.contents)).filter(
        |i: Seq<char>| f.self_import != Some(i),
    );
    match f.current_crate {
        Some(c) => own.map_values(|i: Seq<char>| relative_import(c, i)),
        None => own,
    }
}

/// The code of a file.
pub open spec fn file_code(f: FileV) -> Seq<char> {
    file_text(
        match f.preamble {
            Some(p) => Some(trim(p.atom)),
            None => None,
        },
        imports_text(file_imports(f)),
        join(drop_empty(bodies_of(file_parts(f), CODE_WIDTH as int)), block_sep()),
    )
}

/// Whether a file can be generated: its contents and tests can be rendered at the code width.
pub open spec fn file_renderable(f: FileV) -> bool {
    &&& renderable(FragmentV::Appended(f.contents), CODE_WIDTH as int)
    &&& module_renderable(f.tests, CODE_WIDTH as int)
}

/// An import written relative to `crate` when it starts with the name of the current crate.
pub fn replace_current_crate(crate_name: &str, import: String) -> (res: String)
    ensures
        res@ == relative_import(crate_name@, import@),
{
    let mut prefix = crate_name.to_owned();
    prefix.append("::");
    if has_prefix(import.as_str(), prefix.as_str()) {
        let cs = crate::text::chars_of(import.as_str());
        let mut res = "crate".to_owned();
        let n = crate::text::chars_of(crate_name).len();
        crate::text::push_range(&mut res, &cs, n, cs.len());
        proof {
            assert(cs@.subrange(n as int, cs@.len() as int) =~= import@.skip(crate_name@.len() as int));
        }
        res
    } else {
        import
    }
}

impl FileFragment {
    /// An empty file.
    pub fn new() -> (res: Self)
        ensures
            res@ == (FileV {
                preamble: None,
                contents: AppendedV { items: Seq::empty(), sep: block_sep() },
                tests: ModuleV { test: true, ..ModuleFragment::fresh_view(Some("tests"@)) },
                self_import: None,
                current_crate: None,
            }),
    {
        FileFragment {
            preamble: None,
            contents: AppendedFragment::new(),
            tests: ModuleFragment::new_test_module(),
            self_import: None,
            current_crate: None,
        }
    }

    /// Set a preamble for this file, such as inner attributes or module documentation.
    pub fn set_preamble(&mut self, preamble: AtomicFragment)
        ensures
            final(self)@ == (FileV { preamble: Some(preamble@), ..old(self)@ }),
    {
        self.preamble = Some(preamble);
    }

    /// Add another fragment to the contents of this file.
    pub fn append(&mut self, fragment: Fragment)
        ensures
            final(self)@ == (FileV {
                contents: AppendedV {
                    items: old(self)@.contents.items.push(fragment@),
                    ..old(self)@.contents
                },
                ..old(self)@
            }),
    {
        self.contents.append(fragment);
    }

    /// Add test code to the test module of this file.
    pub fn append_test(&mut self, test: Fragment)
        ensures
            final(self)@ == (FileV {
                tests: ModuleV {
                    content: AppendedV {
                        items: old(self)@.tests.content.items.push(test@),
                        ..old(self)@.tests.content
                    },
                    ..old(self)@.tests
                },
                ..old(self)@
            }),
    {
        self.tests.append(test);
    }

    /// Set the import of what this file defines, so that it is left out of the file's imports.
    pub fn set_self_import(&mut self, import: String)
        ensures
            final(self)@ == (FileV { self_import: Some(import@), ..old(self)@ }),
    {
        self.self_import = Some(import);
    }

    /// Set the current crate, so that imports from it are written relative to `crate`.
    pub fn set_current_crate(&mut self, current_crate: String)
        ensures
            final(self)@ == (FileV { current_crate: Some(current_crate@), ..old(self)@ }),
    {
        self.current_crate = Some(current_crate);
    }

    /// The imports of the file.
    fn final_imports(&self) -> (res: Vec<String>)
        ensures
            strings_view(res@) == file_imports(self@),
    {
        let all = self.contents.imports();
        let ghost av = strings_view(all@);
        let ghost pred = |i: Seq<char>| self@.self_import != Some(i);
        let mut kept: Vec<String> = Vec::new();
        let mut i: usize = 0;
        while i < all.len()
            invariant
                i <= all.len(),
                av == strings_view(all@),
                pred == (|i: Seq<char>| self@.self_import != Some(i)),
                strings_view(kept@) == av.take(i as int).filter(pred),
            decreases all.len() - i,
        {
            proof {
                reveal(Seq::filter);
                assert(av.take(i + 1).drop_last() == av.take(i as int));
                assert(av.take(i + 1).last() == av[i as int]);
            }
            let excluded = match &self.self_import {
                Some(s) => *s == all[i],
                None => false,
            };
            if !excluded {
                kept.push(all[i].clone());
                proof {
                    assert(strings_view(kept@) =~= av.take(i as int).filter(pred).push(av[i as int]));
                }
            }
            i = i + 1;
        }
        proof {
            assert(av.take(all.len() as int) == av);
        }
        match &self.current_crate {
            Some(c) => {
                let ghost kv = strings_view(kept@);
                let mut res: Vec<String> = Vec::new();
                let mut j: usize = 0;
                while j < kept.len()
                    invariant
                        j <= kept.len(),
                        kv == strings_view(kept@),
                        res@.len() == j,
                        forall|k: int|
                            0 <= k < j ==> (#[trigger] res@[k])@ == relative_import(c@, kv[k]),
                    decreases kept.len() - j,
                {
                    let r = replace_current_crate(c.as_str(), kept[j].clone());
                    res.push(r);
                    j = j + 1;
                }
                proof {
                    assert(strings_view(res@) =~= kv.map_values(|i: Seq<char>| relative_import(c@, i)));
                }
                res
            },
            None => kept,
        }
    }

    /// Get the code for this file.
    pub fn generate_code(&self) -> (res: String)
        requires
            file_renderable(self@),
        ensures
            res@ == file_code(self@),
    {
        let imports = self.final_imports();
        let imports_text = imports_str_of(&imports);
        let mut bodies: Vec<String> = Vec::new();
        bodies.push(self.contents.body(CODE_WIDTH));
        if !self.tests.content.is_empty() {
            bodies.push(self.tests.body(CODE_WIDTH));
        }
        proof {
            lemma_bodies_of(file_parts(self@), CODE_WIDTH as int);
            assert(strings_view(bodies@) =~= bodies_of(file_parts(self@), CODE_WIDTH as int));
        }
        let body = join_nonempty(&bodies, "\n\n");
        let preamble = match &self.preamble {
            Some(p) => Some(trim_str(p.atom.as_str())),
            None => None,
        };
        crate::render::render_file(&preamble, &imports_text, &body)
    }
}

/// The import of what the file itself defines is left out of the imports that the file
/// declares. (With a crate name set, imports are rewritten after this, and another import may
/// be rewritten into the same text.)
pub proof fn lemma_self_import_excluded(f: FileV, own: Seq<char>)
    requires
        f.self_import == Some(own),
        f.current_crate is None,
    ensures
        !file_imports(f).contains(own),
{
    let all = imports_of(FragmentV::Appended(f.contents));
    let kept = |i: Seq<char>| f.self_import != Some(i);
    if file_imports(f).contains(own) {
        let k = choose|k: int| 0 <= k < file_imports(f).len() && file_imports(f)[k] == own;
        all.lemma_filter_pred(kept, k);
    }
}

/// Setting the file's own import drops every occurrence of it from the imports that the file
/// declares and keeps every other import as often as its contents need it. (With a crate name
/// set, the kept imports are rewritten afterwards.)
pub proof fn lemma_self_import_counts(f: FileV, own: Seq<char>, x: Seq<char>)
    requires
        f.self_import == Some(own),
        f.current_crate is None,
    ensures
        file_imports(f).to_multiset().count(x) == if x == own {
            0
        } else {
            imports_of(FragmentV::Appended(f.contents)).to_multiset().count(x)
        },
{
    let all = imports_of(FragmentV::Appended(f.contents));
    let kept = |i: Seq<char>| f.self_import != Some(i);
    lemma_filter_count(all, kept, x);
}

/// A file with no preamble, no contents and no tests generates no text at all.
pub proof fn lemma_empty_file_code(f: FileV)
    requires
        f.preamble is None,
        f.contents.items.len() == 0,
        f.tests.content.items.len() == 0,
    ensures
        file_code(f) == Seq::<char>::empty(),
{
    let parts = file_parts(f);
    assert(parts == seq![FragmentV::Appended(f.contents)]);
    assert(bodies_of(f.contents.items, CODE_WIDTH as int) =~= Seq::<Seq<char>>::empty());
    assert(drop_empty(Seq::<Seq<char>>::empty()) =~= Seq::<Seq<char>>::empty());
    assert(body_of(FragmentV::Appended(f.contents), CODE_WIDTH as int) =~= Seq::<char>::empty());
    lemma_bodies_of(parts, CODE_WIDTH as int);
    let bodies = bodies_of(parts, CODE_WIDTH as int);
    assert(bodies =~= seq![Seq::<char>::empty()]);
    assert(drop_empty(bodies) =~= Seq::<Seq<char>>::empty()) by {
        assert(bodies.drop_last() =~= Seq::<Seq<char>>::empty());
    }
    let imports = file_imports(f);
    assert(imports_all(f.contents.items) =~= Seq::<Seq<char>>::empty());
    assert(imports_of(FragmentV::Appended(f.contents)) =~= Seq::<Seq<char>>::empty());
    reveal(Seq::filter);
    assert(imports =~= Seq::<Seq<char>>::empty());
    lemma_no_imports_no_text();
}

} // verus!
