# rustic_app

The rules of a rhythm-game client, verified with Verus: flattening of Adobe Animate
timelines into draw parts, sprite-atlas frame data, sample-accurate animation timing,
hold notes and receptors, character pose state machines, countdown and cutscene cue
scheduling, the Freeplay DJ and capsule list, menu navigation, song and asset naming,
dialogue and credits layout.

- `src/` is the verified library. Each module states its behaviour in `requires` /
  `ensures` contracts over spec functions, and the properties that span several calls
  stand as public proof functions named `law_*`.
- `tests/` runs the library on concrete values.
- `app/` is the unverified shell around it: JSON decoding with serde, floating-point
  tweening and matrix composition with glam, wall-clock reads and environment lookups.
  It hands the library plain values and takes plain values back.

Build and verification go through Cargo with Verus; the outside crates are serde,
serde_json and glam.
