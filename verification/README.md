# italic

The logic of `italic`, a static site generator that publishes a Markdown
garden to the web and to an ATProto PDS (as `site.standard.*` records, with
optional Bluesky announcement posts), written in Verus: every function in
`src/` carries a contract and is proved against it.

- `src/` — the verified library: text and HTML helpers, slugs, frontmatter
  splitting, paths and permalinks, `<head>` metadata rendering, the URL,
  text and listing filters, the directory tree, `clean`'s plan, the
  ATProto records, keys, state, cover resolution, record comparison and
  read-back classification, and the decisions of a publish run.
- `tests/` — tests run against the compiled library.
- `app/` — the command line and the file-system, network and template-engine
  glue around the library.

Calls into outside crates (hashing, base32, CID parsing, grapheme
segmentation, date handling, JSON encoding, glob building and matching,
tera arguments and one-off rendering) go through small trusted wrappers
whose contracts state what the crate documents.
