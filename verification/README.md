# rust_codingagent

The core of a terminal coding agent, written in Verus. The agent talks to a chat
model, carries out the tool calls that the model asks for inside one workspace,
records every file change so that it can be taken back, and keeps its sessions on
disk. It is written for Unix: paths are taken apart at `/`.

## Layout

- `src/` is the verified library. It decides and computes; it does no I/O.
- `app/` is the program around it: `main`, the terminal, files, processes, HTTP.
- `tests/` runs the library on concrete values.

### The library

| Module | What it holds |
| --- | --- |
| `text`, `number`, `measure`, `order` | strings as sequences of characters, decimals, byte lengths, stable orders |
| `path`, `path_laws` | path text, its names, and when a path lies inside a directory |
| `message`, `session`, `context`, `store` | conversations, sessions, token budgets, where sessions are kept |
| `tools` | reading, searching, writing, editing and shell commands, each as a run of file operations |
| `rollback` | snapshots of files, line differences, records of changes, and taking them back |
| `provider`, `remote` | request bodies, replies and the event stream of a chat endpoint |
| `agent` | the prompt, the message window, tool requests, and a turn with the model |
| `docx` | the text of a word-processor document |
| `cli` | configuration, commands, plans, approvals, menus and everything that is printed |

Work that needs the outside world is a machine: a value that hands out the next
operation as plain data and takes the outcome back (`ToolRun`, `RollbackRun`,
`RestoreRun`, `Agent`, `TurnRun`, `SseStream`, `MainLoop`). The program performs the operation;
the contracts say what is asked for and what follows from every outcome.

### What is believed without proof

Calls into `regex`, `serde_json`, `quick-xml`, `zip`, `unicode-width` and `toml`, the
clock, and two functions of the standard library's `String` stand behind items whose
doc comments say what is claimed of them. Everything else in `src/` is proved.
