# rust-engine

The analysis engine of a live UML class diagram: it parses TypeScript,
JavaScript, Python, Java, C# and PHP sources with tree-sitter, extracts their
classes, interfaces, enums and traits with fields and methods, infers the
relationships drawn between them, and decides which file changes call for a
new analysis.

The library under `src/` is verified with Verus:

- `model` — the diagram types and their mathematical views.
- `relationships` — relationship inference (inheritance, implementation,
  composition, aggregation, dependency) and the laws it keeps.
- `syntax`, `parsing` — the library's own syntax-tree model and the copy of
  tree-sitter's tree into it.
- `languages` — one extractor per language, each specified over the syntax
  tree, and the choice of extractor by file extension.
- `paths`, `text` — paths and strings as the standard library reads them.
- `scanner` — supported extensions, always-excluded directories, and the
  `.gitignore`-aware relevance filter.
- `watcher` — the debounce state machine of the watch loop.
- `project` — the analysis of a whole set of source files.

`app/` is the command-line program around it (`analyze`, `watch`): the
directory walk, file reading, the file-system watcher and JSON output.
