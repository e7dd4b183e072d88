# Codex Shuttle

Codex Shuttle lets the Codex App on a Mac work on a host that it reaches over
SSH, on Linux or on macOS with Apple Silicon: the App Server stays on the Mac,
while files, processes and Git are those of the host. `cxs` prepares a profile
for a host, installs OpenAI's own Codex and a small shim there, and runs a
bridge. On the host the shim answers in the place of `codex`, and an agent
carries all channels over one SSH connection.

## Layout

- `src/` holds the rules, written and proved in Verus: which messages the
  bridge rewrites, holds back, merges or hides (`bridge`, `relay_model`,
  `relay`, `jsonl`, with their laws in `bridge_laws`, `relay_laws`,
  `relay_safety`, and, over whole runs, `relay_runs` and `jsonl_laws`), who may
  connect (`handshake`, `arguments`, `mux`, `shim`), how long things are waited
  for and how processes are stopped (`waiting`), how profiles come about and
  change (`profile`, `lifecycle`, `doctor`, `probe`, `path_probe`), what is
  installed and by which scripts (`install`, `digest`, `scripts`, `shell`), the
  managed SSH configuration (`ssh`, `ssh_laws`), and how sessions are copied
  and repaired (`sessions`, `archive`). `text`, `entries`, `json` and `failure`
  are what these are made of; `routing` lists the methods that belong to the
  host, and `runtime` the switches of the remote runtime.
- `app/` is what surrounds them: the command line, processes, sockets, files,
  the session database and the clock.
- `tests/` runs the library on concrete values.

What the library has from other crates stands behind functions marked
`external_body`, each with a comment that says what is taken for granted of it.
