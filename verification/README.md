# webview_cli

The decision logic of `webview`, a command-line tool that renders HTML in a
native window, lets the page send exactly one result back
(`window.webview.resolve` / `.reject`), prints it and exits with a documented
code.

- `src/` is the verified library:
  - `input` — where the page comes from (piped stdin, an `http(s)` URL, a file);
  - `bridge` — the injected script and reading the page's `ok:` / `err:`
    message, payload verbatim;
  - `assets` — content types, percent-decoding, and request paths that cannot
    leave the page's directory;
  - `paths` — how `std::path` reads portable paths (components, file names,
    whole-component prefixes) and the confinement of served files to the
    page's directory;
  - `run` — the exit-code table, the event loop's decisions, page URLs and
    the User-Agent;
  - `cli` — the parsed arguments, their defaults and the version;
  - `text` — shared character/byte helpers.
- `app/` is the program around it: argument parsing, stdin, the window and
  webview, the file server and the macOS Dock icon.
- `tests/` exercises the library on concrete values.
