# zola

The core rules of the Zola static site generator as a library verified with Verus:
configuration (languages, merging with a theme, permalinks, glob patterns, search and
image settings), content files (front matter splitting and checks, file information, reading
pages and sections, slugs, URL paths, dated file names, reading analytics, inherited front matter of translations),
ordering (sorting pages by date, weight, title or slug, siblings), the tree of the site
(ancestors, subsections and page lists of sections, the sections a page belongs to through
transparent sections, path collisions, backlinks, translations), pagination, taxonomy terms, and image
processing requests (formats, resize operations, output names).

- `src/` is the library. Its functions carry contracts that Verus proves, and the laws of
  the library are proof functions (`lemma_*`). The calls into other crates (globset,
  unic-langid, toml, chrono, rayon, lexical-sort, slug, unicode-segmentation, regex) and a
  few functions of std stand behind small `#[verifier::external_body]` wrappers, whose
  contracts are believed, not proved: each says in its doc comment what it claims.
- The tree of the site is held in vectors indexed by position (sections, and where each
  page is placed) rather than in a slot map keyed by generated ids, so that the relations
  between sections and pages can be stated and proved over plain sequences.
  `library::populate_library` builds the whole tree from them: places, page lists, sorted
  lists and neighbours; `library::find_library_collisions` finds the paths that two files
  claim.
- Titles and slugs are compared with lexical-sort, which reads runs of digits into `u64`s.
  The sorts that use it ask that at most one of the texts holds a run of twenty digits or
  more; `try_sort_pages` and `try_sort_pages_by_title` check this and give `None` otherwise.
- `tests/` runs the library on concrete values.
- `app/` is the code around it that Verus does not see: reading TOML and files, the clock,
  the floating-point choice of how an image fill is cropped, and the serde shapes handed to
  templates.
