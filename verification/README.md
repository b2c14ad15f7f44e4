# gradient-codec

A budget-aware router for completion requests across model providers, with
failure critique, in-memory traces, and the canonical 15-field state type.

- `src/` — the verified library (Verus): budget ledger, cost estimation,
  reading provider replies, routing policies with their registry and
  ranking, failure history and critic, the orchestration state machine that
  gates, settles and retries requests,
  traces, plane-safe identifiers and boundary guards, the state type and its
  validity check, and the tensegrity crust's regime decisions. Public proof
  functions named `law_*` state the library's laws.
- `tests/` — tests of the library on concrete values.
- `app/` — the program: command line, provider HTTP adapters, JSON input and
  output, floating-point views of the state, the crust physics, and the `v15d`
  JSON bridge (the program acts as `v15d` when invoked under that name).

Money is fixed point throughout: amounts in pico-dollars (1e-12 USD), the
ledger in hundredths of a cent, prices in micro-dollars per million tokens,
quality scores over 10_000_000 and weights over 10_000. Floating-point fields
of the state are held as IEEE-754 bit patterns.

The hosted Anthropic entry of the provider catalog has the id
`anthropic/sonnet` and the display name "Anthropic Sonnet"; the program
takes the Anthropic model to call from `ANTHROPIC_MODEL`.
