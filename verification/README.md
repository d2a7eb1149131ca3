# micro_xoodyak

The Xoodoo permutation that underlies Xoodyak, verified with Verus.

- `src/xoodoo/spec.rs`: the model: lanes, the five steps of a round
  (theta, rho-west, iota, chi, rho-east), the round constants, the twelve-round
  permutation, and the little-endian byte layout of the 48-byte state.
- `src/xoodoo/round.rs`: the executable steps, each proved equal to its model.
- `src/xoodoo.rs`: the `Xoodoo` state and `permute`, proved to compute the
  model on the bytes it holds.
- `src/xoodoo/inverse.rs`: the inverse of every step, and the proof that
  `permute` is a bijection on 48-byte states.
- `src/error.rs`: the error type of the Xoodyak modes and its messages.
- `app/`: `Display` and `std::error::Error` for a copy of the error type.
