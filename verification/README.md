# binparse

Byte-level parser combinators. Every parser states, in a contract, what it
reads and what it leaves, and the code is proved to meet that contract.

- `src/parser.rs`: the `Parser` trait and its contract (every parse leaves a
  suffix of its input; productive parsers read at least one byte of a nonempty
  input), and `ParserExt`, the combinator methods.
- `src/repeat.rs`: repetition a fixed number of times or until the input is
  exhausted; the latter asks that the repeated parser read at least one byte
  of every nonempty input on which it succeeds, in every state it can reach.
- `src/primitives.rs`, `src/ints.rs`, `src/bytes.rs`: parsers for raw bytes,
  tags, the end of input, and fixed-width integers in little-, big- and
  native-endian order, with the numbers they read given by `le_value` and
  `be_value`.
- `src/combinators.rs`, `src/either.rs`, `src/tuples.rs`: mapping,
  sequencing, looking ahead, choice between two parsers, and tuples of
  parsers.
- `src/laws.rs`: properties that relate the parsers to each other.
- `app/`: the floating-point parsers, `Display` for the errors, and
  conversions to and from `either::Either`.
