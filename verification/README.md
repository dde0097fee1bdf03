# ecson

An ECS-driven, stateful, bidirectional server framework: each client connection
is an entity in a `bevy_ecs` world, and systems run on a fixed-timestep loop.

- `src/` is the verified library (Verus): the frame stepping of the main loop
  (`timestep`), connection ids and the routing of network events to entities
  and the per-read decision of a connection's reader (`connection`), the throttle gate of the rate limiter (`rate_limit`), the
  message payload types (`events`) and the network plugins' configuration
  (`plugin`).
- `app/` is the server around it: the bevy application and its schedules, the
  components, resources, messages and systems, the tokio WebSocket server, and
  the token-bucket rate-limit plugin (whose arithmetic is in floats).
- `tests/` runs the library on concrete values.
