# holo_area_proxy

Verified building blocks of an IS-IS implementation with RFC 9666 Area Proxy
support, SPF start-up defaults, and passive control-plane metrics.

## Layout

- `src/` — the library, written and proved with Verus.
  - `packet.rs`, `config.rs`, `lsdb.rs`: IS-IS identifiers, TLVs, LSPs, the
    instance configuration and the LSP database the logic reads.
  - `area_proxy.rs`: roles, hello source identities, the local Area Proxy TLV
    and the Inside Edge flooding filter.
  - `proxy_lsp.rs`, `min_table.rs`: Proxy LSP synthesis on the Area Leader
    (outside neighbors and prefixes at their lowest metric) and the
    originate / keep / purge decision.
  - `subtlv.rs`: wire format of the Area Proxy System Identifier Sub-TLV on
    `bytes` buffers, with its round-trip law.
  - `spf_config.rs`: SPF defaults merged file > environment > YANG, and the
    parsing of environment values.
  - `observability.rs`, `sample.rs`, `metrics_emit.rs`: metric counters,
    sample rows and their CSV form, the resident-set-size reading, and the
    NDJSON domain events.
  - `spf_fixture.rs`, `spf_profiling.rs`: the ring world and the torus
    harness (their LSP databases and the configuration SPF runs under) used
    to measure SPF.
  - `text.rs`: building strings character by character.
- `tests/`: tests of the library's public functions.
- `app/`: file, environment and clock access, the global NDJSON sink, the
  background exporter, and serde forms of the library's types.
