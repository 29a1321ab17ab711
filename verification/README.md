# ronin

The interaction logic of Ronin, a local-first AI workbench for the Linux
desktop, as a Verus library: Verus proves every function against its
`requires` / `ensures` contract (constructors that only load syntect's
bundled data state nothing of it), and the properties that tie several
functions together stand as public `law_*` proof functions.

## Layout

- `src/` — the verified library, one module per area of the application:
  launching and the single-instance hand-off protocol (`launch`, `instance`),
  the composer and its key handling (`composer`, `composer_keys`,
  `composer_ingest`, `composer_pickers`, `completions`), command palette, search and pickers
  (`command_palette`, `global_search`, `model_picker`, `keyboard_nav`),
  panels and settings presentation, markdown parsing and styling
  (`markdown`, `markdown_view`), code highlighting (`syntax_highlight`),
  context budgeting (`context_indicator`, `attachment_size`), and packaging
  (`packaging`). `text` holds the shared text model and its lemmas.
- Calls into pulldown-cmark, syntect and image go through small trusted
  wrappers whose contracts say what the library relies on.
- `tests/` — executable tests of the library.
- `app/` — the launcher program: argument handling, the Unix socket and lock
  file of the single-instance protocol, and the float-based measurements that
  feed the verified functions.
