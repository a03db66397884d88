# jump

Navigating code references: parsing file links, GitHub permalinks and
`path:line` references, finding the project root and the Neovim instance that
should open them (through tmux and Hyprland), building GitHub permalinks, and
reading symbol names out of language-server hover replies.

The library in `src/` is written in Verus. Its functions carry contracts
stated over mathematical models (`Seq<char>` for text, views of the data
types), and Verus proves them. Work that touches the outside world (running
tmux, `nvr`, `pstree` or `hyprctl`, reading files and git repositories,
talking to a language server) is done by the program in `app/`, which hands
the library plain values and acts on what it returns.

Layout of `src/`:

- `text`, `number`, `paths`: string, decimal and path operations with their
  specifications (`str::trim`, `split_once`, `u32::from_str`, `Path::join`, ...).
- `parser`: link text to a jump request.
- `git`: remote URL normalization and permalinks.
- `tmux`: reading tmux listings and deciding which tmux commands to run.
- `nvim`, `hyprland`, `project`, `materializer`, `config`, `symbol`: the
  remaining decisions of the tool.
- `roundtrip`: laws relating the links the library writes to what its parser
  reads back.

The tests under `tests/` exercise the library, and the laws of `roundtrip`
and of the modules hold for all inputs they name.
