# leadlang

The interpreter core of the Lead programming language, verified with Verus,
and the `lead` program around it.

## Layout

- `src/` — the library. Every function is verified but one: `packages::lossy_string`,
  which calls `String::from_utf8_lossy` and whose contract is trusted.
  - `text`, `dict`: strings by character and byte, and the insertion-ordered
    dictionary that the interpreter keeps its variables and tables in. The
    dictionary is a vector of entries with distinct keys, specified as a `Map`
    of character sequences: the keys are `String`s, and a `HashMap` keyed by
    `String` was not tried, since a `String` key gives its contracts nothing
    to build on in this version of Verus.
  - `value`, `heap`, `extends`: Lead values, the heap of a running file (with
    `self.` access to a module's own heap, `->` moves and `->&` borrows), and
    the prototype tables that packages install.
  - `literal`, `structure`, `parser`, `module_text`: reading literals, program
    files and Lead modules.
  - `interp`, `runtime`, `driver`: weighing conditions, running a line, the
    `*` commands, calls into modules, packages and runtime values, and running
    a file line by line; what needs the world outside comes back as a `Step`.
  - `packages`, `timing`, `cli`, `docs`, `sysinfo`, `init`, `wrappers`: the
    package registry, the timing of callees, the command lines and messages of
    the tools, the documentation browser's logic, the system information
    beside the logo, and the installer's choice of release.
- `tests/` — tests of the library on concrete programs and values.
- `app/` — the programs: `lead` (running programs, native package libraries,
  tasks and channels), `leadc`, the installer and the documentation browser.
