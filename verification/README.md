# wand

The `wand` command line client for Runebook. Its logic is a library whose
contracts are proved; the program around it does the input and output.

- `src/` is the verified library:
  - `text`: the model of `str::lines` (`lines_of`), a verified line splitter, and
    the facts about terminated lines that the renderers rely on.
  - `util::color` / `util::fmt`: colouring of `kubectl diff` output and
    indentation, with laws on how they treat lines.
  - `decimal`, `style`: decimal notation and terminal styles (through `colored`).
  - `pusher`: decoding of channel messages (JSON with a Base64 message inside),
    the steps of output they build up, and how those steps are shown.
  - `commands`, `http`, `config`, `cli`: request addresses and headers, the
    install confirmation, manifest rendering (through handlebars), and the
    token polling decision of the login.
- `app/` holds `main`, the network, shell, terminal and file work.
- `tests/` runs the library on concrete values.
