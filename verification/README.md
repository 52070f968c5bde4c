# vls

A verified parser for **vers-like specifiers** (vls): the `<constraints>` part
of a [vers](https://github.com/package-url/vers-spec) URL without the
`vers:<type>/` prefix, as used by CSAF.

- `src/` is the library, verified with Verus: comparators, version strings,
  constraints, the vls parser and its text form, and the proofs that a parsed
  vls writes back to the text it came from and that a well-formed vls parses
  back from its text.
- `app/` holds copies of the error types that carry `std::error::Error` and
  their messages.
