# pj

A local-first coding agent: a web interface and a terminal interface drive one agent and
one SQLite database, and inference runs through Ollama. The model may ask for tools
(reading, writing and editing files, running commands, searching), which are run only
when the user approves them.

The rules of the agent are a verified library; what touches the outside world is ordinary
Rust around it.

## Layout

`src/` is the library, proved with Verus:

| Module | What it holds |
|--------|---------------|
| `text`, `lines`, `replace`, `number`, `sorting` | character sequences: trimming, searching, replacing, lines, decimals, stable sorting |
| `paths` | Unix paths: joining, absolute paths, parents |
| `json` | JSON values as tool calls carry them |
| `markup` | tool calls, thoughts and code blocks in a model's reply |
| `tools` | the tools on offer, normalized calls, and how a call is described |
| `output` | what tools report, cut down to size |
| `execution` | running a tool call, step by step |
| `chat` | chats and messages, and what of them a model is sent |
| `ollama` | requests, streamed replies, retrying without tools, vision |
| `engine` | turns, and tool calls that were approved or declined |
| `events` | changes of chats, and how they travel |
| `config` | settings and model presets |
| `tui`, `view` | the state of the terminal interface, and what it shows |
| `web`, `cli` | what requests and command lines ask for |

Work on the outside world is asked for as values: a function returns the action that is
wanted, and is told what came of it. Public proof functions whose names begin with `law_`
state what holds of the library as a whole.

`app/` performs those actions: files, processes, the database, HTTP, the event socket, the
screen. `tests/` runs the library on concrete values.
