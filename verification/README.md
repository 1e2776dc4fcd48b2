# vertex_swarm_demo

A delivery swarm of drones, robots and e-bikes that agree on orders through
Tashi Vertex consensus, with its logic verified by Verus.

- `src/` is the verified library: the order lifecycle, deterministic
  auctions, handoff rules, heartbeat-based failure detection, safety zones,
  the settlement ledgers, the swarm agent runtime, the node's follow-up
  decisions and the local simulations, with their log lines.  Positions and
  other real quantities travel through it as `f64` bit patterns; every
  floating-point computation on them (ETAs, distances, whether a point lies
  in a zone, bid scores) is a closure the caller supplies.  Auctions order
  the scores' bit patterns as `f64::total_cmp` does.
- `app/` is the command line around it: the Vertex nodes, the demos, the
  JSON and TOML forms of the library's types, the floating-point geometry,
  the bid score and the few log lines that print coordinates.
- `tests/` runs the library on concrete scenarios.
