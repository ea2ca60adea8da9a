# u_scanner

The indexer behind an Unreal Engine project: it reads C++ headers and sources,
`.Build.cs` and `.Target.cs` files, `.uproject` and `.uplugin` files, ini files and
packed assets, keeps what it finds in a SQLite database, and answers an editor's
questions from it.

- `src/` is the library. Every function states what it returns, and Verus proves it.
  The calls into other crates (regular expressions, hashing, tree-sitter, the LRU
  cache, JSON, MessagePack) stand in small wrappers whose contracts say what is taken on trust.
- `tests/` runs the library on concrete values.
- `app/` is the program around it: the command line client, the server, the
  database, the walks over directories. It holds no rule of its own.

| module | what it decides |
| --- | --- |
| `parser`, `syntax` | classes, members and calls in a syntax tree |
| `diagnostics` | broken reflection rules, missing definitions, build logs |
| `edit` | adding a module to a `.uproject` or `.Target.cs` file |
| `query` | statements, navigation, usages, configuration |
| `refresh` | which files to parse, which modules there are and what they depend on |
| `db` | paths, versions and the rows that a parsed file becomes |
| `server` | frames, requests and answers, the asset graph, caches, watched files, clients |
| `uasset` | the tables of a packed asset |
| `cli` | the command line |
