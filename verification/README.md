# kestrel

The logic of the kestrel agent runtime as a verified library: the
formatting of replies for Telegram, the channel commands (`/validate`,
`/menu`, `/settings`, `/history`), provider registration and model
discovery, retry decisions, sessions and their notes, the memory rescue
and merged memory search, the search tools, the sub-agent scheduler, the
OpenAI-compatible API's request handling, the setup wizard's and the
doctor's decisions, documented configuration fields, and password-based
encryption of configuration files.

Layout:

- `src/` — the library, verified with Verus. Each public function states
  its result in `ensures` over spec functions; the `law_*` proof functions
  state properties that relate several calls.
- `tests/` — tests of the library on concrete values.
- `app/` — what runs around the library: JSON and TOML forms of its types,
  `tracing` output, the retry loop, file-system walks, the configuration
  commands, the doctor run and the terminal wizard.
