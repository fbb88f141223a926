# openscreen

The Open Screen protocol: its messages, state machines, cryptography, certificates and
discovery, verified with Verus, and the programs around them.

- `src/` is the library. What its functions return is stated and proved with Verus.
  - `common`, `encoding`, `bounded`: integers, texts and collections that the rest is
    built on.
  - `cbor`: items, tables of fields, and the laws that what is written is read back.
  - `network`: the messages of the authentication, and its states.
  - `application`: the messages of the application protocol, and its state machine.
  - `crypto`: SPAKE2 with confirmation, hashes and key derivation.
  - `cert`: serial numbers, hostnames, certificates and their PEM files.
  - `discovery`: what is published and found by multicast DNS.
  - `transport`: what a connection does with the outputs of a state machine.
- `app/` is the input and output: QUIC, TLS, multicast DNS, files, the sender and the
  receiver.
- `tests/` runs the library.

Calls into other crates stand behind small functions marked `external_body`. Their doc
comments say what is believed of each call.
