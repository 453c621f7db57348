# caret

caret turns a folder of Markdown files into one live, editable page: `caret build`
writes a single self-contained `index.html`, and `caret serve` serves the same page
with in-place editing that saves straight back to the `.md` files.

## Layout

- `src/` — the library, verified with Verus: frontmatter splitting and metadata,
  slugs and link routing, the normalize/render pipeline around comrak, page
  ordering, the page shell, settings and secrets, diagram bookkeeping, and every
  decision the editing server makes about a request (routing, path checks, file
  names, answers).
- `app/` — the program: the command line, the file system, the HTTP loop and the
  TOML files, all handing plain values to the library.
- `tests/` — tests of the library on concrete values.
