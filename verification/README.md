# Morrows (verified core)

Morrows coordinates humans and AI agents: tasks, assignments, runs, launch
attempts, sessions, memory and collaboration records. This crate holds the
decisions that the Morrows server, its employee MCP surface and its memory CLI
make, written in Verus and proved against their contracts:

- `auth`, `operator_auth`: the two authorization planes (agent Bearer tokens on
  the employee surface, operator tokens with viewer/operator/admin roles on the
  control plane) and the laws that keep the credential classes apart.
- `startup`: bind-address policy, the bootstrap operator credential, boolean
  settings and the MCP `Host` allowlist.
- `launch`, `launcher`, `codex`: the launch ledger's state rules, the Codex CLI
  argument vector and prompt, the executor's steps, and reading a Codex JSONL
  transcript from its text (split into lines and parsed by `serde_json`).
- `session_runtime`, `dispatch`, `fleet`, `run_control`, `lsm`: runtime and
  profile choice, scheduling, managed Codex agents, run control and the LSM
  control protocol.
- `mcp`, `company_mcp`, `collab`, `completion`: request shapes and the access,
  filtering and completion-criteria rules of the MCP tools.
- `memory_search`, `memory_worktree`: memory retrieval ranking and the memory
  worktree's checkout, refresh, lineage and publication checks.
- `domain`, `records`, `ids`, `json`, `text`: shared vocabulary and helpers;
  `json` holds the `serde_json` parse and pretty-print behind trusted wrappers.

`app/main.rs` is a small command-line front end: `morrows check` validates the
server settings found in the environment, `morrows codex-result FILE` reads a
Codex transcript through the library, and `morrows models ADAPTER PROGRAM` runs
model discovery against a local CLI. The tests under `tests/` run the library on concrete values.
