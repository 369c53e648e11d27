# btmesh

Parts of a Bluetooth mesh stack, written in Verus and verified.

- `src/buffer.rs`: `ByteVec<N>`, a byte vector of capacity `N`, and
  `write_chunks`, the model of emitting a message piece by piece into such a
  vector (each piece whole or not at all, stopping at the first that does not
  fit).
- `src/lower.rs`: lower transport PDUs (access and control, unsegmented and
  segmented): parsing, emitting, and the round-trip laws between the two.
- `src/composition.rs`, `src/composition_data.rs`: composition data and the
  Config Composition Data Get/Status messages.
- `src/app_key.rs`: Config AppKey messages and the decisions taken when one
  arrives (which key change to make, what to reply).
- `src/common.rs`, `src/network.rs`, `src/opcode.rs`, `src/configuration.rs`:
  shared values and message wrappers.
- `app/`: the asynchronous serving of AppKey messages against a key store and
  a reply channel, and conversions to and from `heapless` vectors.

Byte buffers inside the library are `ByteVec<N>`, a verified vector of
capacity `N` that behaves as `heapless::Vec<u8, N>` does (`push` hands the
byte back when full; `extend_from_slice` and `from_slice` are all or
nothing). The library's contracts speak of a buffer's contents for every
capacity `N`, and no specification of the contents of `heapless::Vec<u8, N>`
for a generic `N` can be written here; `app/` converts between the two.

The composition types (`Composition`, `Features`, `ModelIdentifier`,
`ElementDescriptor`) are this library's own. Their encodings follow the
composition data page 0 layout of the Bluetooth Mesh Profile: the feature
bits (relay, proxy, friend, low power in bits 0 to 3) as a 16-bit value, least
significant byte first; a SIG model as its 16-bit identifier and a vendor
model as the company identifier followed by the model identifier, each least
significant byte first. The page header writes the company, product and
version identifiers and the replay protection list size most significant
byte first.
