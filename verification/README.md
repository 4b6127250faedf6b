# fiber_types

Wire types of a payment channel network node on CKB, verified with Verus.

- `src/` is the verified library:
  - `le`, `molecule`, `fields`: little-endian numbers, molecule's frames
    (tables, vectors, unions, arrays) and the field types of messages, with the
    checks that molecule's readers make.
  - `messages`: every protocol message with its encoder, checker and decoder.
    Each message states that decoding its bytes gives it back
    (`lemma_roundtrip`), that bytes that decode are the bytes of what they
    decode to (`lemma_canonical`), and that what decodes is well formed
    (`lemma_decoded_wf`).
  - `keys`, `ckb`, `error`: keys, signatures, nonces, scripts and transactions,
    whose validity secp256k1, musig2 and ckb-types decide.
  - `peer`, `network`: what the peer actor and the network controller decide
    for each event, as functions from state and event to next state and action.
- `app/` runs those decisions: the tentacle service, the ractor actors, and the
  serde forms of the wire types.
- `tests/` exercises the library against the real outside crates.
