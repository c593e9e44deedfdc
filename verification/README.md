# scll

Off-card management of GlobalPlatform cards, written and proved in Verus.

`scll` drives a card through its life: discovery, secure channels (SCP03, and SCP02 where a
card has no other), key provisioning, security domains, loading of CAP files, applets, and
the card's own life cycle state.

## Layout

| Part | What it holds |
|---|---|
| `src/tlv.rs`, `src/aid.rs` | BER-TLV and application identifiers |
| `src/command/`, `src/response.rs` | command APDUs, and what cards answer |
| `src/lifecycle.rs` | the legal changes of the card's state |
| `src/scp/` | the secure channel protocols, for any backend |
| `src/backend/` | what a backend has to offer |
| `src/rustcrypto/` | a backend in software |
| `src/cap/` | CAP files and the load file that is made of them |
| `src/workflow/` | the complete operations, for any transport |
| `src/support/` | a scripted card and a backend without cryptography |
| `src/util/`, `src/reader.rs`, `src/bridge.rs` | helpers of the programs around the library |
| `app/` | readers, a simulator link, random numbers, a shared backend: no proofs here |
| `tests/` | known answers, scripted cards and edge cases |

## What is proved

A transport and a backend belong to the user. Each keeps a history of its calls that exists
only in proofs. The contract of a workflow says which commands go to the card, in which
order, what the backend is asked for, and what is made of every possible answer, success and
failure alike. Around the contracts stand laws, the functions whose names begin with `law_`:
for instance that reading undoes writing for every TLV structure, that a refused request
sends nothing, that a response that does not verify closes its session, and that the blocks
of a load file, one behind the other, are the load file.

The ciphers, DEFLATE and the byte buffers come from other crates (`aes`, `des`, `cbc`,
`cmac`, `miniz_oxide`, `heapless`, `zeroize`). What is taken for granted of them stands with
each call, in `src/rustcrypto/primitives.rs`, `src/cap/inflate.rs`, `src/buffers.rs`,
`src/secret.rs` and `src/rustcrypto/key.rs`; `src/util/text.rs` has the quoting of texts
from std.
