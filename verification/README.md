# grate_limiter

Anticipatory rate-limit orchestration: predict limits before providers enforce them.

The library under `src/` is verified. It holds the parts of the engine that
compute on integers, each with a contract over a mathematical model:

- `clock` — monotonic timestamps, the clock trait, a real and a mock clock;
- `quota` — the quota trackers (token bucket in fixed point, fixed window, sliding
  window with exact integer interpolation, concurrency limiter) and the tracker enum;
- `health` — a provider's failure streak, counters and cooldown;
- `engine` — the provider and capability registry: upserts, observations, cooldowns,
  candidate lists for selection and the candidates out of cooldown, quota samples
  and lookups, and the laws that the counters and cooldowns keep over any course of
  calls;
- `ranking` — stable ranking of scored candidates, highest key first;
- `metrics`, `observation`, `provider`, `capability`, `error` — the data they share;
- `traffic` — the traffic patterns and load profiles of the simulator;
- `simulation` — the step count and the per-request tally of a simulation run.

The registry keeps its providers and capabilities in vectors, searched in order,
whose names are unique by the registry's invariant; it takes no concurrent map or
small-vector crate, and `app/` shares it between threads behind one lock.

The laws of the library are public proof functions named `lemma_*` beside the
functions they speak of.

`app/` is the program around the library: the thread-safe engine with its
floating-point health score, latency average and weighted scoring, the HTTP server,
and the loop of the simulation harness with its random providers.

`tests/` runs the library on concrete values.
