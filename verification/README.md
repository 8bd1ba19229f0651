# massa_protocol

The peer protocol of a node that propagates blocks: how two peers authenticate
each other, how the channel to one peer is served, and how all channels are
kept track of.

- `src/` holds the decisions, verified with Verus. They are free of sockets,
  tasks and clocks: each part turns an event into a new state and a list of
  actions. `src/laws.rs` states what holds across the parts and across many
  events.
- `app/` waits for the events on tokio and performs the actions. The network
  layer, the encoding of messages and the signature scheme are plugged in
  through the traits of `app/layers.rs`.
- `tests/` runs the library on concrete values.
