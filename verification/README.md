# odin

The decision logic of the Odin swarm daemons, verified with Verus.

- `src/media/` — Muninn's media path: Annex B and ADTS splitting, chunking
  and reassembly of access units, video parity and GF(256) audio FEC with
  recovery, the receiver's jitter buffer and feedback, the stream senders,
  and the checks and names of the records on the realtime lane.
- `src/odin_core/` — Odin's discovery core: typed documents, the ingest
  pipeline and repository, the Gjallar overview, the Idunn keepalive
  planner, endpoint discovery, and the runtime-topology authority's
  decisions (disagreements, write leases, presence admission, dependency
  evidence, the correlation it publishes or keeps, daemon options and
  snapshot rules).
- `src/sleipnir/` — Sleipnir's input bridge: the semantic HID cursor, the
  device catalog, advertisement and endpoint lookup, the button mapping,
  state coalescing, its command line and health reports, the Eve/CultUI
  surface it publishes (dashboard, device cards, remap presets and the
  Xbox binding map), the provider advertisement and surface-state record
  it announces itself with, and the decisions of its mirror loop as a step
  function from state and event to next state and actions.
- `src/tracker.rs` — the Move tracker's configuration, dispatch plan and
  per-tile luma measurements.
- `src/text.rs`, `src/documents.rs` — text and record helpers shared by the
  modules.
- `app/` — the process edge: MessagePack payloads, command lines read from
  the environment, the surface document, surface state and provider
  advertisement as JSON, the driver of Sleipnir's
  mirror loop over its I/O, the tracker's C ABI and its floating-point
  candidates.
- `tests/` — scenarios on concrete values for each module.
