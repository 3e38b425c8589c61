# moq-subscribe

The subscription side of Media over QUIC Transport, verified with Verus.

The library in `src/` holds the logic and does no I/O:

- `coding`: variable-length integers, strings, namespaces and parameters as bytes.
- `message`: `Subscribe`, `SubscribeUpdate` and the other messages about subscriptions. What is
  written reads back.
- `session`: the two ends of a subscription. A subscription can only become more narrow, but for
  a start that may be replaced by the latest object. Its end is told once, and what serves a track is
  led step by step.
- `multipath`: the playing of a track that several relays send at once. Each object is played once,
  in order, and the other relays are told to skip ahead but never to go back.
- `smartout`: the same with a fixed offset.
- `media`: the atoms of an init segment and the choice of the tracks to play.
- `config`: what the command line asks for.

Calls into other crates stand behind small functions marked `#[verifier::external_body]`, each with
its contract: byte buffers (`bytes`), sorting (`itertools`), URLs (`url`) and the boxes of a `moov`
atom (`mp4`).

`app/` is the program around the library: the command line, the sessions with the relays, the
streams, the clock and the estimates in floating point.

`tests/` runs the library on concrete values.
