# electric_meter

A DL/T 645-2007 electricity-meter protocol library, verified with Verus. It
builds the request frames a master sends to a meter module and decodes the
module's replies.

- `src/spec.rs` — the model: frame layout (`frame_bytes`), check byte
  (`checksum_of`), request and reply payloads, and what a received frame
  decodes to (`parse_frame`, `frame_result`, `parse_result`).
- `src/frame.rs` — control codes, payloads, encoding to bytes and reading from
  bytes, each proved against the model.
- `src/lib.rs` — the public functions: `generate_raw_frame`,
  `parse_result_from_raw_frame`, `frame_is_decodable`,
  `request_is_encodable`, `__bytes_should_recv`.
- `src/laws.rs` — properties of the protocol as a whole: frames are read back
  as written, replies decode to what they carry, the expected reply length is
  the reply's length, and any single altered byte is refused.
- `app/lib.rs` — the transport: the `Io` trait and `generic_function`, which
  sends a request and decodes the reply.
