# Nexterm

Linux-first remote session manager: one window for SSH, local shells, SFTP,
port forwarding, multi-exec, embedded mini-servers, and secrets that stay out of
files and logs.

- `src/` is the verified library, in Verus. It performs no I/O: what needs the
  outside world is a step function or goes through a trait (`ProfileStore`,
  `CredentialStore`, `Connector`, `TunnelDriver`).
- `app/` is the `rrs` command-line harness: files, the OS keyring, PTYs, the HTTP
  server, the event bus and the loops that perform the library's steps.
- `tests/` runs the library.

| Module | What it holds |
| --- | --- |
| `model`, `store`, `registry`, `config`, `event` | profiles, groups, sessions and their bookkeeping |
| `credentials` | `Secret`, the in-memory store, what the OS keyring's answers mean |
| `protocols` | transport traits, a fake SSH transport, local-shell decisions |
| `terminal` | output highlighting, alt-screen detection, choice of shell |
| `tunnels` | tunnel manager, forwarding decisions, SOCKS5 |
| `miniservers` | lifecycle of the HTTP file server and the scheduler |
| `ui` | the `AppCore` facade, multi-exec, macros, edit conflicts, safety rules |
| `cli`, `tasks` | arguments and output of the harness, developer tasks |
| `ids`, `net`, `pattern`, `platform`, `table`, `text` | shared ground |

What is believed without proof is small: the `regex`, `uuid` and `zeroize` calls
in `pattern`, `ids` and `credentials::secret`, two functions of the standard
library in `text`, and the system clock in `model::session`.
