# smallvec

`SmallVec<T, N>` models a small vector: up to `N` elements count as inline,
and growing beyond that spills it to a heap allocation with a power-of-two
capacity. The elements themselves are held in a plain `Vec` in both states;
the spilled state and the capacity are tracked beside them. The operations
carry contracts over the sequence of elements, the spilled state and the
capacity, and Verus proves them.

- `src/small_vec.rs`: the vector, its invariant and its growth policy.
- `src/pow2.rs`: the powers of two that the growth policy uses.
- `src/etna.rs`: properties that must hold for every input; the contract of
  each states that it returns `Pass` on every input it accepts.
- `src/runner.rs`: the logic of the command-line runner (property and tool
  names, canonical inputs, verdicts, metrics, the case budget, JSON quoting
  with its reading law, and the JSON report line).
- `src/text.rs`: decimal text of numbers and the `Debug` text of integer
  lists, proved against their specs, for messages.
- `app/main.rs`: the runner itself, which drives the properties with
  proptest, quickcheck, crabcheck and hegel, times them and prints the
  report line.
