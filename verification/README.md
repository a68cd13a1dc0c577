# omega

The middle and the back of a compiler for the Omega language, as a library:
the types a program has and what they look like in memory, the analyses that
need nothing but those types, the messages the compiler prints, and the
lowering of a checked program to what Cranelift and LLVM are told to emit.

Everything under `src/` is verified with Verus.

- `resolved_type`, `type_eq`, `type_key`, `type_text`, `type_hash`, `order`:
  types, when they are the same, their canonical keys and how they read.
  `key_laws`, `canonical_laws` and `shape_laws` hold what is true of keys and
  of the canonical forms of anonymous enums and spec conjunctions;
  `acceptance_laws` holds what it means that one type accepts another.
- `layout`, `measure`: sizes, alignments, offsets and leaves.
- `generics`, `template`, `exhaustiveness`, `similarity`, `runtime_checks`,
  `source_annotations`, `annotations`: the analyses. `template_laws` holds what
  tells generic declarations apart, and `edit_laws` that the distance between
  two names is the fewest edits.
- `error`, `diagnostics`, `phrases`, `text`: messages.
- `target`: what is compiled for.
- `codegen`: the intermediate form a program arrives in (`mir`), what both
  backends share, and the backends themselves. `codegen::cranelift` and
  `codegen::llvm` turn a compilation into a plan: plain values that say which
  symbols, data, tables and instructions there are. Their `laws` modules hold
  that such a plan refers only to what there is; `constant_laws` and
  `pool_laws` hold what is true of constant data.

`app/` hands a plan to the code generators and writes the objects. `tests/`
runs the library.
