# ternary engine

Simulation engine for ternary {-1, 0, +1} agent systems, verified with Verus.

Agents sit on a square grid with wrap-around. Each tick every agent takes the
majority charge of its eight neighbours (the neutral state is an insulator and
carries none), then may fall into the neutral trap, tunnel out of it by
spending a forgiveness token, mutate, or switch species.

- `src/` is the verified library. Probabilities are integer rates on the
  31-bit scale of the engine's random draws; the engine's whole tick is
  specified as a function of its agents, configuration and tick number.
- `app/` holds the floating-point face: rates as `f64`, population metrics
  (fractions, Shannon entropy) computed from the library's census, and
  adapters taking closures as random sources.
- `tests/` runs the library.
