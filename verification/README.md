# openmls (verified core)

The message-protection core of an MLS group library, written in Verus:
the secret tree and sender ratchets that give every member the same message
keys, the encryption of messages for the group and their recovery, the
encodings they travel in, and the checks an incoming message passes before
the application sees it.

- `src/`: the verified library. Calls into the crypto backend
  (`openmls_rust_crypto`) stand behind a few wrappers in `crypto.rs` and
  `authentication.rs` whose contracts state what the backend does.
- `tests/`: tests that run the library with the real backend.
- `app/`: JSON test-vector I/O and serde forms of library types.
