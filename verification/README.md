# zamm_yang

Yang generates Rust code for concepts of the Yin knowledge base. This crate is its code
generation library, written in Verus: every rendering rule is a function with a contract, and
the contracts are proved.

## Layout

- `src/text.rs`, `src/order.rs`: text operations and stable sorting by text keys, each stated
  over character sequences.
- `src/imports.rs`, `src/import_order.rs`: grouping, sorting and printing of `use`
  declarations, and why their order does not depend on the order of the imports.
- `src/fragment.rs`, `src/construct.rs`, `src/layout.rs`, `src/render.rs`: code fragments
  (atoms, appended and nested fragments, calls, items, functions, impl and trait blocks, types,
  modules), their mathematical model, how they are built and what text they render to at a line
  width.
- `src/code_fragment.rs`: the traits shared by fragments.
- `src/file.rs`: whole files, with their imports.
- `src/concept/`: templates for the code of Yin concepts (forms, archetypes, attributes, flags,
  data, knowledge-base initialization, archetype modules).
- `src/placement.rs`, `src/naming.rs`: where a concept's code goes and what it is called.
- `src/markdown.rs`: extraction of YAML and Rust code blocks from literate Markdown.
- `src/yaml.rs`, `src/definition.rs`: YAML documents as plain values, and the plan that a
  concept definition document makes for the knowledge base.
- `src/intermediate.rs`, `src/release.rs`, `src/manifest.rs`: the intermediate program that
  generates the final code, and release bookkeeping, including the versions written into
  `Cargo.toml` and `Cargo.lock`.
- `src/traits.rs`: traits that concept types implement.
- `src/autogen.rs`: the list of generated files.
- `app/main.rs`: the `yang` command line tool: arguments, files, processes.
- `app/kb.rs`: carrying out a definition plan on the Yin knowledge base.

Laws that hold across functions (stable sorting, import grouping and ordering, appending
fragments, idempotent tracking of generated files, and others) are public proof functions next
to the functions they speak of.
