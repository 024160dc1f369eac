# webex

The verified core of a Webex API client, checked with Verus.

- `src/adaptive_card/styles.rs`: the Adaptive Card style types (colors,
  spacing, sizes, alignments, ...). Each is written as a keyword and read back
  without regard to ASCII case; the round trip and the case-insensitivity are
  proved for every type.
- `src/client/rest.rs`: the decisions of the REST client: host prefixes and
  request URLs, which reply text is decoded, the error a failed reply becomes,
  and the pagination cursor that follows `rel="next"` links up to a proved cap.
- `src/client/host_prefixes.rs`: the endpoint-to-host-prefix table.
- `src/client/outside.rs`: the trusted calls into `reqwest`, `serde_json` and
  `parse_link_header`.
- `src/text.rs`: character-level helpers (ASCII folding, search, decimal).
- `app/`: the async HTTP side (sending requests with `reqwest`, decoding JSON,
  logging) and serde-enabled copies of the style types.
