# hotl

The decisions of the `hotl` command-line agent, as a verified library: what a
command line means, what a configuration resolves to, how a session is opened,
driven, parked and attached to, and what a sandboxed command may read and write.

- `src/` holds the library. Every function states in its contract what it
  returns or changes; the laws that span functions stand beside them as public
  proof functions.
- `tests/` runs the library from outside, with the real crates linked.
- `app/` is the program around it: files, sockets, child processes and the
  terminal. It asks the library what to do, does it, and reports back.

| modules | subject |
| --- | --- |
| `launch`, `startup`, `lineage`, `undo`, `bg` | command lines and the routes to a session |
| `config`, `vars`, `provider`, `keysource`, `setup` | settings, credentials and models |
| `connection`, `acp`, `engine`, `surface` | the agent protocol and the headless surface |
| `session_server`, `attach`, `approve_cli` | backgrounded sessions and their clients |
| `sandbox`, `paths`, `winargs` | the write floor, the read-deny and confined launches |
| `plugins`, `plugins_cli`, `mcp_cli`, `shell_hooks` | what extends a session |
| `doctor`, `gc`, `history`, `images`, `clipboard`, `diffgen` | reports and tools |
| `json`, `toml_text`, `text`, `base64`, `measure` | the ground that the others stand on |

What the library takes from other crates without proof is marked
`external_body`; the comment above each such function says which function it
calls and what is claimed of it.
