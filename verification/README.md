# LightLoft raw helper

LightLoft decodes raw photo files in a separate, sandboxed process: a malformed or hostile file can
at worst stop this helper, never the application. The decisions that the helper and the application
take are a library verified with Verus; sockets, shared memory and the decoders are ordinary Rust
around it.

| Path               | Role |
|--------------------|------|
| `src/message.rs`   | Requests, replies, and how pixels are laid out |
| `src/channel.rs`   | Framing of messages, and the descriptor that comes with one |
| `src/shm.rs`       | Names, sizes and mappings of shared memory |
| `src/session.rs`   | Open files, and what to do next about a request |
| `src/descriptor.rs`| The path that opens a received descriptor |
| `src/conduct.rs`   | What a session does over whole requests |
| `src/decode.rs`    | From what the raw decoder reads to what is replied |
| `src/system.rs`    | Decisions around the system's decoders and sandbox |
| `src/allocation.rs`| The cap on a single allocation |
| `src/text.rs`      | Texts of errors |
| `app/`             | The helper process |

Files arrive as descriptors and pixels leave in shared memory; the receiver checks the real size of
an object before mapping it. Panics of a decoder are caught and answered as errors. On macOS the
helper confines itself before it reads any request and refuses to run if it cannot; a `SandboxCheck`
request tells whether it did. Any single allocation above 2 GiB is refused.

Floating-point numbers are not part of the verified library: it holds them as bit patterns or as
quotients of integers, and `app/` rounds.
