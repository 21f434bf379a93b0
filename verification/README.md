# vylo_share

The logic of Vylo Mouse Share's sync channel, written in Rust and proved with
Verus: clipboard sync, file and folder transfer, PIN pairing, LAN discovery,
input tuning, and the decisions of the service around them.

`src/` is the library. It does no I/O: each part is a state machine or a
function over plain values, and its contract says exactly what it does. The
host hands it messages and the outcomes of file work, and carries out the
effects it answers with.

| modules | what they hold |
| --- | --- |
| `text`, `names`, `table` | strings, safe names and places, small keyed tables |
| `proto`, `connection`, `event`, `ipc` | messages, frames, where a message goes, what frontends are told |
| `effects`, `receive`, `incoming`, `inbox` | the receiving side: model (`incoming`) and implementation (`inbox`) |
| `walk`, `outgoing`, `send_tree` | the sending side: one file, and whole folders |
| `incoming_laws`, `transfer_laws` | what receiving guarantees, and what sender and receiver make of a file together |
| `walk_laws`, `folder_laws` | what a finished walk has found, and what sender and receiver make of a whole folder together |
| `digest`, `pairing`, `trust` | hashes, PIN pairing, whom a connection admits |
| `actor` | pairing windows, the one active connection, dialing, clipboard changes on their way |
| `clipboard`, `keyboard`, `drag`, `discovery`, `tray`, `tuning` | the desktop around it |

What the library guarantees as a whole stands in public proof functions, next
to what it is about: that only verified files are kept, that a folder is
delivered whole or not at all, that a folder arrives with the structure and
the bytes that it was sent with, that both machines settle on one connection,
that a pairing window allows one attempt, that the clipboard content last
applied from the peer or last told to it is not told again, and so on.

Calls into other crates (sha2, hmac, spake2, rand, png, serde_json) stand
behind small wrappers whose contracts are stated, not proved; each says what
it claims of the function it calls.

`app/` is the program around the library: sockets, TLS, files, threads and the
desktop shell. `tests/` runs the library, with an in-memory disk where files
are involved.
