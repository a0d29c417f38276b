# fanrs

The rules of the Fantomen index, an index of the Swedish Phantom
magazine: how its data files are read, how issues, prices, references,
creators and titles are written, ordered and linked, and how the pages
and listings of the index are made from them.

- `src/` is the library, written in Verus: each function has a contract
  that Verus proves.  The modules are, roughly, the data file readers
  (`xml`, `element`, `datafile`, `issuefile`), the values of the index
  (`issue`, `price`, `refkey`, `title`, `creator`, `episode`, `part`,
  `contents`), what the pages show (`markup`, `cloud`, `paginator`,
  `yearlinks`, `covers`, `fallbacks`, `search`, `error`), the command
  line listings (`listings`), the cover scans of the phantom wiki
  (`wiki`), and shared helpers (`text`, `sort`).
- `app/` is the command line program around it: reading files, the
  database, the network.  It holds the `read-files`, `list-issues`,
  `fetch-covers`, `check-strips` and `count-pages` commands.  The web
  server (its routes, handlers, static files and page templates) is not
  part of `app/`: its pages are built on compiled templates that are not
  part of this project, so only the decisions and the html fragments
  that the pages are made of stand here, in `src/`.
- `tests/` runs the library on examples.
