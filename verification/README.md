# caseta

Verified drivers for Lutron Caséta dimmers, over both of the bridge's ports.

- `src/integration.rs`: the line protocol of the Smart Bridge PRO's integration port.
- `src/leap.rs`: commands and status over LEAP, the TLS port of every Smart Bridge.
- `src/setup.rs`: pairing a bridge over LEAP, and listing the dimmers behind it.
- `src/dimmer.rs`: what both drivers do with a level: which level a command asks for, what is
  noted down, and which reports are news.
- `src/host.rs`: what a driver and its host hand each other.
- `src/json.rs`, `src/serde.rs`, `src/csr.rs`, `src/text.rs`: documents, their reading and
  writing by `serde_json`, keys and signing requests by `rcgen`, and text.
- `src/laws.rs`, `src/pairing_laws.rs`: what holds over several calls.

A driver opens no socket and reads no clock.  It is handed a device, a command, an event or a
setup state, and hands back calls for the host to make.  The contracts say which, for every
input.

What is trusted rather than proved stands in `src/serde.rs` and `src/csr.rs`: the calls into
`serde_json` and `rcgen`, each with a comment on what is claimed of it.

`app/` ties the drivers to `serde_json` documents and reads the integration port's levels, which
are written with a fraction.
