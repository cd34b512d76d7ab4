# nearshare

A file-sharing server for the local network: a browser uploads files, which are
stored encrypted, and sends them on to other nodes, chunk by chunk.

- `src/` is the logic, verified with Verus: who is logged in, what is stored where
  and how it is encrypted, what the browser is answered, and what nodes say to each
  other. The public proof functions whose names begin with `law_` state what holds
  of it as a whole.
- `app/` is the server around it: HTTP, files and the network.
- `tests/` runs the library with the real ciphers, random numbers and peer
  identities.

What is believed without proof stands in `cipher.rs` (AES-256-GCM), `random.rs`
(random numbers), `p2p/identity.rs` (the notation of peer identities), `text.rs`
(appending a character to a string) and `p2p/node.rs` (a lock that is only handed
on, as an opaque type).
