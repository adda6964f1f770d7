# keal

The logic of Keal, a fast application launcher with plugins, as a library
whose functions carry contracts proved with Verus. The calls into outside
crates and into a few functions of std go through small trusted wrappers
whose contracts are stated, not proved.

## Layout

- `src/` — the verified library:
  - `text`, `utf8_text`, `number`, `assoc`: characters, UTF-8 boundaries,
    decimal numbers, and association lists (the model of every keyed map);
  - `ini_parser`, `config`, `theme`: the INI format of `config.ini`, the
    launcher's configuration and its colors;
  - `index_map`, `plugin::fuzzy`: the calls into `indexmap` and
    `nucleo-matcher`, each with the contract the library relies on;
  - `plugin`: choices and their scores and highlighting, the line protocol
    of user plugins, the built-in plugins (applications, list, session
    manager, dmenu), the plugin table and the user's overrides, launch
    counts, and the plugin manager's decisions;
  - `text_input`, `selection_input`, `navigation`: the search field and the
    keyboard navigation of the frontends;
  - `arguments`, `xdg_utils`, `icon`: command-line options, XDG directories
    and icons.
- `app/` — the runtime around it: the process-wide arguments and
  configuration, files on disk, plugin processes, and the plugin manager's
  thread.
- `tests/` — tests of the library on concrete values.
