# locaryn-plugin-freetoken

The FreeToken inference engine for Mixture-of-Experts models, driven from Locaryn: which commands
install, probe, start and stop it, under Linux or through WSL2 under Windows, and which tools ask
the running server.

`src/` is a library whose behaviour is stated in contracts and proved by Verus. It runs no command
and opens no file. It says what to do next and takes what came of it, so that every decision is a
function of plain values.

| Module | What it holds |
|---|---|
| `text` | Trimming, lines, words, numerals |
| `json` | JSON values of `serde_json`, and what they stand for |
| `settings` | The settings of the extension |
| `runtime`, `paths` | Where the engine runs, folders, paths under WSL |
| `shell`, `command` | Quoting for the shell, the commands, and how a shell reads them |
| `outcome` | What running a command gives |
| `probe` | What the machine offers and what it lacks |
| `models` | The checkpoints that can be served |
| `ctl` | Questions and demands to the running server |
| `launch` | The launcher: `serve`, `stop`, `probe` |
| `tools`, `call` | The tools, and what calling one does |
| `mcp` | The protocol that the tools are called by |

The functions in `json`, `text` and `models` that stand for functions of `serde_json` and of the
standard library say in their comments what is taken for granted of them.

`app/` holds the programs around the library: environment, files, processes, HTTP.
