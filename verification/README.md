# code_indexer

A code indexer for AI agents: it parses a repository with tree-sitter into symbols, imports
and line chunks, stores them for keyword and vector search, and serves them over MCP.

The library (`src/`) holds the indexer's logic with Verus contracts and proofs:

- `types`, `storage`: languages, symbol kinds, records, and how they are stored and read back.
- `text`, `paths`, `syntax`: text lines as `str::lines` gives them, paths as `std::path` reads
  them on Unix, and the syntax tree the parsers walk.
- `ts`: the calls into tree-sitter and the walk that copies a parse into a `SyntaxTree`.
- `parser`: symbol, import and chunk extraction for Rust, TypeScript, C and C++, and the
  plain-text reading of the other languages.
- `chunker`: cutting a file into chunks of whole lines, and their content hashes.
- `indexer`: which files are indexed, what indexing one file produces, and run counts.
- `search`, `tools`: merging keyword hits, and how tool requests are read.
- `config`, `embedding`: settings with their defaults and environment overrides; embedding
  providers, their detection order and the embedding loop's retries.

`app/` is the program around it: the command line, SQLite and vector storage, HTTP calls to
embedding providers, git, file watching, rank fusion of float scores, and the MCP server.
