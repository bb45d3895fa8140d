# omp-remote

The verified core of a remote-control surface for agent processes: a daemon
keeps the authoritative state of each agent, and paired clients follow it over
a WebSocket, replicate it, and act on it.

`src/` is written in Verus; its functions carry contracts that the
verifier proves. The calls into outside crates (`base64`, `url`, `getrandom`)
and a few `str` methods go through small trusted wrappers whose contracts
name or describe what those functions return.

| Module | Contents |
| --- | --- |
| `ids`, `text` | Identifier types, decimal rendering and the byte order of text |
| `state`, `actor`, `registry` | Agent snapshots, deltas, the per-agent actor state with replay and interaction leases, the registry of running agents |
| `protocol`, `codec`, `transport` | Control-protocol frames, version and capability negotiation, frame limits, ready and chunk frames |
| `reducer` | The client's replicated state: snapshots, deltas, events, gaps and resynchronisation |
| `client`, `session`, `runner`, `config`, `connection`, `pairing`, `storage` | The client's decisions: welcome review, the reconnect loop's steps, pending requests and retries, subscriptions, endpoints, pairing links, credentials |
| `runtime`, `supervisor`, `events` | Prompt tracking, bounded line reading, startup errors and response correlation for agent processes; the decisions of the loop that supervises one process; what their frames mean for transcripts and prompts |
| `model`, `frontend` | The application model: transcripts, interactions, saved profiles, the checks of user actions |
| `rpc`, `commands` | Data types of the agent-process protocol |

`app/` holds the ordinary Rust around the library: serde encodings, files,
socket addresses, process arguments, the credential-store interface, and
the asynchronous loop that runs an agent process and carries out what the
library's supervisor decides.
`tests/` exercises the library on concrete values.
