# wherearethey

Finds where command-line tools were installed from: looks a binary up on `PATH` and tells
which package manager (or which well-known install location) it comes from, lists every
tool of 18 package managers grouped by source, finds the binaries that no package manager
claims, searches by wildcard pattern, keeps friendly names for binaries, and records
installs through zsh hooks.

## Layout

- `src/` is the library, verified with Verus. Each function works on plain values (the
  output of a command, the entries of a directory, the text of a file) and its contract
  states its result over spec functions on `Seq<char>`, `Seq`, `Set` and `Map`.
  - `text`, `paths`, `order`: character-level text, `Path::join` and `Path::file_name`,
    and the order of `String` with sorted sets of texts.
  - `detect`: the path rules that tell a binary's source, and what a lookup reports.
  - `managers`: what each package manager's listing or bin directory yields, and the
    full scan.
  - `scan`: the `PATH` directories and binaries, unclaimed and unmanaged binaries, and
    wildcard searches; `wildcard`: the pattern matcher.
  - `aliases`, `history`, `json`: friendly names, the install history, and JSON values
    as serde_json parses them.
  - `output`, `hooks`: the texts that are printed.
  - `laws`: properties of the library as a whole, proved over the same spec functions.
- `app/` is the command itself: argument parsing with clap, running commands, reading
  and writing files, and JSON output with serde.
- `tests/` runs the library on concrete inputs.
