# gemlite

A minimal Gemini API client: HTTP calls, file uploads and failover over several keys, behind a
small C interface.

What the client decides is verified with Verus. The library under `src/` holds it, with contracts
and proofs; `app/` holds the sockets, files, clocks and threads around it.

| Module        | What it is about                                                        |
|---------------|-------------------------------------------------------------------------|
| `text`        | text operations over sequences of characters                            |
| `mask`        | keeping keys out of what a caller sees                                  |
| `json`        | JSON values, as `serde_json` holds them                                 |
| `mime`        | the type of a file                                                      |
| `config`      | configured keys, and the turns of a conversation                        |
| `failure`     | what failed, and whether another key is worth trying                    |
| `request`     | the requests that are sent                                              |
| `reply`       | how answers are read, and the steps of an upload                        |
| `files`       | the cache of uploads                                                    |
| `reading`     | the files that go with a prompt                                         |
| `preflight`   | which configurations are tried, and in which order                      |
| `preparation` | everything that is settled before a key is tried, step by step          |
| `keys`        | the walk over the keys                                                  |
| `ask`         | a call that waits for the whole answer                                  |
| `sse`         | reading a stream of events                                              |
| `stream`      | a call that is answered piece by piece, and the messages to its caller  |
| `registry`    | the open streams                                                        |

Public proof functions whose names begin with `law_` state what holds across functions.
