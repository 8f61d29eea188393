# ark_client

A client of an Ark server, in two halves.

- `src/` decides. It builds the requests, reads the replies, runs a round as a state machine, makes
  and signs the forfeit transactions, and finds the way out of the ark without the server. Every
  function has a contract that says what it returns, and Verus proves that it does.
- `app/` talks. It calls the server and the blockchain, draws random numbers and waits; what it says
  and does with the answers, it asks `src/`.

What the contracts take on trust is the behaviour of the `bitcoin`, `base64` and `secp256k1-zkp`
crates: each call into them stands in a small function of its own, whose comment says what is
claimed of it. Where a result is too long to state, such as a signature or the encoding of a
transaction, the contracts give it a name and speak of the name.

| module | |
| --- | --- |
| `hex`, `armor`, `tx`, `script` | texts and scripts: hexadecimal, base64, transaction ids, `OP_CSV` |
| `psbt`, `keys`, `taproot`, `address` | partially signed transactions, keys, signature hashes, addresses |
| `internal_node` | the script of the inner nodes of a VTXO tree |
| `wire`, `server`, `convert`, `grpc` | messages, what they are read into, requests and replies |
| `signing`, `forfeit` | signing what is the client's, giving VTXOs up |
| `tree`, `cosigners`, `round`, `round_laws` | signing a VTXO tree together, taking part in a round |
| `registration`, `spendable`, `oor`, `client` | what is put into a round, payments out of rounds |
| `branch`, `redeem`, `walk`, `broadcast`, `exit`, `exit_laws` | leaving the ark without the server |

A function that returns an `Option` gives nothing where there is nothing sensible to do: the server
sent something that does not fit, or an amount does not fit its type. Its contract says when.
