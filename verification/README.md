# hydra_dqea

Verified building blocks of a device-attestation system and of a threshold
signing scheme over BLS12-381, written in Verus.

## Layout

- `src/field.rs`: elements of the BLS12-381 scalar field as four 64-bit
  limbs, and the field operations of `ark-ff` on them.
- `src/poly.rs`: polynomials by their coefficients, their values, and the
  fact that a polynomial with fewer coefficients than it has roots (with
  invertible differences) is zero.
- `src/interpolation.rs`: Lagrange basis coefficients, with the laws that the
  `i`-th basis polynomial is one at its own point and zero at the others,
  that the basis values sum to one, and that they interpolate every
  polynomial of lower degree.
- `src/triple.rs`: additive (n, n) secret sharing and Beaver triples.
- `src/commitment.rs`: a KZG-style reference string and polynomial
  commitments in G1, with the law that a commitment is `p(gamma) * g`; the
  field values behind commitments add and scale with the polynomials, and
  each call of the group operations states the matching point law.
- `src/codec.rs`: the length-prefixed binary format of the stored records,
  with a read-after-write law for every value kind.
- `src/keys.rs`: secp256k1 keys and ECDSA signatures, Groth16 proofs and
  verifying keys, held as their standard encodings.
- `src/poseidon_constants.rs`: the published round constants and MDS matrix
  of the Poseidon hash over BLS12-381 with S-box `x^5` and width 3.
- `src/device.rs`: the attestation records (device report, verifier
  response, device configuration, evidence) and the Poseidon hash chains
  that bind them.
- `src/records.rs`: encoding and decoding of whole records, each with its
  read-after-write law.
- `tests/`: tests on concrete values.
- `app/`: the benchmark driver, file storage of the records, and the parts
  that read the clock or the measurement file.

Calls into `ark-*`, `k256`, `num-bigint`, `arkworks-native-gadgets` and
`arkworks-utils` stand behind small trusted wrappers whose contracts name
what the outside code computes; everything around them is verified.

Three functions of the attestation code are not here: the Merkle-tree
lookup of a device's path and the batch insertion of devices call a
tree module that is not part of these sources, and the test-configuration
generator stores field elements where keys belong, so what it should build
cannot be read from it.
