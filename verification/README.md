# gg_core

The verified core of GG, a graphical front end for the Jujutsu version
control system: the decisions and text processing that GG makes around the
repository, each stated as a contract and proved with Verus.

- `src/` — the library. Themes (`theme`, `bundled`), applying diff hunks
  (`hunk`) and restoring them (`restore`), git authentication and progress (`git_util`), push/fetch and
  description logic (`ops`), menus and shortcuts (`menu`, `recent`), window
  state and instance forwarding (`gui`), web mode (`web`, `clients`), the
  settings and the command line (`config`, `cli`), paths (`paths`), and the
  message types exchanged with the frontend (`messages`). `text` and `keyed`
  hold the string and map helpers the others are built on.
- `tests/` — tests run against the compiled library.
- `app/` — the input and output around it: the askpass socket, theme files,
  the single-instance socket, the Windows launcher and the clap command line.
