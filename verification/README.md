# ta_enhanced

The rules of the TA Enhanced addon, written in Verus and proved against their contracts:
which attestation engine is installed, what its config may hold and how it is changed,
which packages are targets, and where the keybox of a device comes from.

- `src/` is the library. It decides on plain values: a `Device` holds what was found on
  the device, and the answer is a value or a plan of what is to be written.
- `app/` looks at the device and carries the plans out.
- `tests/` runs the library on examples.

The items marked `external_body` in `src/codec.rs` and `src/keybox/generate.rs` call
`serde_json`, `rcgen` and `rsa`; what they claim of those crates is believed, not proved.
