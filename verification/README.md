# stellar_poll

Two Soroban contracts, a live poll with one vote per account and a registry
of participation badges, with their rules verified in Verus.

- `src/` is the verified library. `poll.rs` holds a poll record and the rules
  for opening, voting on and closing one poll; `live_poll.rs` and `badge.rs`
  hold each contract's storage as a state type whose calls are proved against
  transition functions over plain values, and the step functions that say
  what one call writes and publishes given what it read; `deployment.rs`
  puts both contracts side by side, a recorded vote awarding the voter a
  badge; `laws.rs` states and proves what
  holds across calls (sequential ids, one vote per account, tallies that match
  the recorded voters, closed polls staying closed, badge counts that match
  the badges held and adding up to the badge total, a badge for every vote).
- `app/` is the contract code for the Soroban host: authorization, storage,
  events and the call from the poll contract to the badge contract, with the
  writes and events computed by the library's step functions.
- `tests/` runs the library on concrete calls.
