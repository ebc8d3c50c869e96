# rust-e-sim

A circuit simulator whose solver is verified with Verus: modified nodal analysis,
damped Newton iteration, backward Euler and BDF-2 integration, operating points with
stepped conductance, relays with hysteresis, coupled and saturating inductors.

- `src/` is the solver. Contracts say, operation by operation, which system is built,
  what is handed to the device models and linear solvers, and what becomes of their
  answers; they hold for every answer. `src/laws/` states what follows for the
  simulator as a whole: steps that fail leave the state alone, steps that succeed
  commit ordinary numbers only, a rebuilt circuit goes on where the old one was.
- `tests/` runs whole circuits on hardware doubles, and the parts one by one.
- `app/` binds the solver to JavaScript: doubles as its number type, the numerical
  engine behind it, and stored copies of netlists and states.

The solver is generic over its number type. A floating-point type brings rounding and
not-a-number with it; the contracts only say which operations are applied in which
order, so they are as true of doubles as of the fixed-point numbers in `src/fixed.rs`,
up to the bits of a not-a-number result: its sign and payload are not a function of the
operands, and where a contract equates two such results it says only that both are
not-a-number.
