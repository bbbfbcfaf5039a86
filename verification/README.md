# my-sync

A synchroniser that keeps configured local files in step with copies on a WebDAV server.

`src/` is the verified library (Verus). It decides everything the synchroniser does:

- `config`, `models`: the configuration, its normalisation, the conflict strategies;
- `engine`, `run`: what one sync step does with a local and a remote copy (compared by
  SHA-256 digest), and how a run over all mappings is recorded and summarised;
- `states`, `runtime`, `logs`: the per-mapping states, the in-memory state with its
  run/resolve/queue operations, the bounded sync log and the runtime snapshot;
- `readiness`, `ops`, `watch`: readiness checks, the targets and checks of the file-browser
  operations, and the file-watcher's decisions;
- `paths`, `urls`, `listing`: remote path segments, URLs of remote files and directories, and
  the entries of a WebDAV directory listing;
- `text`, `digest`, `clock`, `sorting`: text helpers, digests, instants and a stable sort.

Calls into `sha2`, `chrono`, `httpdate` and `url` stand behind a few trusted wrappers whose
contracts are stated in their doc comments.

`app/` is the unverified shell: state file, local file I/O, the HTTP client (`reqwest`), the
file watcher (`notify`), the background tasks and the commands a user interface calls.

`tests/` exercises the library on concrete values.
