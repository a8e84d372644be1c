# evanescence_core

A library for computing and working with hydrogenic wavefunctions, with its integer and
text logic verified by Verus.

- `src/` is the verified library: quantum numbers and their enumeration, factorials,
  double factorials and binomial coefficients, the WyRand generator, the names of atomic,
  hybrid and molecular orbitals, kinds of hybridization, sampling qualities, and the reading of
  Gaussian cube files (integers and layout; the floating-point tokens are located and listed
  as checks in reading order).
- `app/` is ordinary Rust around it: seeding from system entropy, the floating-point numerics
  (root finding, Legendre functions, interpolation, cube values in bohr), and the error types
  with `Display` and `std::error::Error`.
- `tests/` runs the library on concrete values.
