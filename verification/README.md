# aaura-w3-strawb

Anna Aurora's personal website, with its logic verified by Verus.

`src/` is the verified library:

- `pages` — markdown pages, directories that list their pages newest first
  (a stable sort through `indexmap`), and the root that indexes the site and
  knows its newest publication date;
- `md_render` — the rules that adjust the markdown events (anchored
  headings, lossier images, `<myaudio>` blocks) around pulldown-cmark;
- `templates`, `listings`, `feeds` — the page frame, header and footer, the
  directory lists, the Linux journey table and the Atom/JSON feeds;
- `etag` — entity tags for non-HTML responses and conditional requests;
- `webring` — this site's neighbours in its webring;
- `datetime`, `encoding`, `text`, `frontmatter` — dates, base64 and bytes,
  string helpers, page metadata.

`app/` is the server around it: environment, files, the webring list,
serde copies of the data types, axum routes and middleware.
