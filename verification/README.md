# wex

A client for the Wex market-place API, in two parts.

- `src/` is the verified library (Verus). It builds the parameters of each
  trade-API method, encodes them as a form body, signs the body with
  HMAC-SHA512 under the account secret (through rust-crypto), formats the
  headers, and turns the exchange's reply envelope into a `Result`. Its
  contracts state each of these exactly; `params.rs` and `request.rs` also
  prove that every parameter set is sent once with its value and that a body
  reads back as the parameters it was made from, and `text.rs` that the nonce
  text reads back as the clock reading it was made from.
- `app/` is ordinary Rust: the HTTP calls (curl), the clock, and decoding the
  JSON replies (serde), whose payload types hold floating-point amounts.
- `tests/` runs the library on concrete inputs.
