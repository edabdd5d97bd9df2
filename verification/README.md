# cync

A clipboard that several computers share. A server passes on what any client has on
its clipboard to all the others, encrypted where they share a password.

`src/` is the library, verified with Verus. It decides; it does no input or output.

| Module | What it holds |
| --- | --- |
| `clipboard` | clipboard contents and the frames in which they travel |
| `connect` | when a content is sent, and what a received message means |
| `crypto` | encryption, key derivation, base64, the WebSocket accept key |
| `client` | the request of a client, and the key that follows from the answer |
| `server`, `headers`, `body` | the answer of the server |
| `peers` | who is connected, and who receives a message |
| `service`, `launchd`, `install`, `steps` | installation as a background service, step by step |
| `cli` | what the command line asks for |
| `errors`, `text`, `bytes` | errors, text and byte strings |

Encryption, hashing, base64, random numbers and the header map come from the crates
named in `Cargo.toml`. The contracts of those calls are not proved; they stand on the
functions marked `external_body` in `crypto`, `headers` and `text`.

`app/` is the program: the command line, the network, the clipboard, files and
commands. `tests/` runs the library.
