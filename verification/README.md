# rusthome

A deterministic, event-sourced home-automation core, verified with Verus.

Every change to the home's projection goes through a journal of lines (facts, commands,
observations and audit lines). Rules react to each processed line and may append follow-up
lines; replaying the facts of the journal rebuilds the projection exactly.

Layout:

- `src/` — the verified library: events and the reducer (`reducer.rs`), the journal index,
  ordering, replay and repair (`journal.rs`), the rule pipeline (`pipeline.rs`), light
  reconciliation (`reconciliation.rs`), `rusthome.toml` validation (`rusthome_file.rs`), MQTT
  topic and payload classification (`mqtt.rs`), the Zigbee2MQTT bridge configuration and field
  mapping (`bridge.rs`), snapshots (`snapshot.rs`), and string and JSON helpers.
- `tests/` — tests of the library.
- `app/` — the file, environment and floating-point side: JSON Lines journal files, snapshot
  files, TOML configuration files, and MQTT payload bytes.
