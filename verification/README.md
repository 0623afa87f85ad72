# minghe_sip

The signalling core of a SIP server for a fixed range of extensions, verified with Verus.

- `src/sip/registrar.rs`, `src/sip/digest.rs`: registration with Digest authentication.
- `src/sip/router.rs`, `src/sip/call.rs`: call routing as a back-to-back user agent. A handler is
  called step by step: it says what is to be done next, and is handed the outcome.
- `src/sip/forward.rs`, `src/sip/media.rs`: what is written anew in messages, and the media keys.
- `src/sip/transaction.rs`: the transactions under way.
- `src/tls.rs`: certificates of the server, where they come from and when they are renewed.
- `src/text.rs`, `src/number.rs`, `src/table.rs`, `src/clock.rs`: what the rest is built on.
- `src/laws/`: what holds of the library as a whole.
- `app/`: the program around it, with channels, files and tasks. The parser of SIP messages and
  the media relay come in through the traits in `app/services.rs`.

Calls into other crates, and into parts of `std` without a specification, stand in small functions
marked `external_body` or in `assume_specification` items. What their contracts claim is not proved;
the comment above each says what it is.
