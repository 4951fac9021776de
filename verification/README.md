# omnidisc

The protocol, media and end-to-end-encryption logic of the OmniDisc chat
client, written in Verus: each function states what it returns in its
`ensures`, and Verus proves it.

- `src/` is the verified library: protocol types, snowflake ids, permission
  resolution, the voice and room state machines, the audio pipeline's
  decisions, capture and encoder settings, subtitle parsing and writing,
  live-chat replay reading, and the encrypted file and MLS state formats.
  Calls into `serde_json`, `chacha20poly1305`, `sha2`, `data-encoding` and
  `rand` go through small trusted wrappers whose contracts say what each call
  returns.
- `tests/` runs the library on concrete values.
- `app/` is the ordinary Rust around it: file and clock I/O, serde forms of
  the protocol types, and the floating-point bitrate and resampling code.
