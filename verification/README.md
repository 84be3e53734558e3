# lemonbeatd

The gateway side of the Lemonbeat radio protocol, with its rules stated and
proved in Verus.

- `src/` is the library: addressing and flow information, source ports and
  wakeup channels, device and value descriptions, SGTINs, firmware containers
  and uploads, inclusion, the wakeup/retry rules for requests and messages, the
  API of the radio module, and the bookkeeping of known devices. It computes on
  plain values; each public function states what it returns or changes. Functions
  named `law_..` state what holds of several of them together.
- `app/` is the server around it: sockets, files, timers, the EXI message codec
  and the LWM2M message bus. Where the server alternates between the network and
  a decision, the library takes the event and gives the next action.
- `tests/` run the library, together with the crates that it calls.

Times and durations are nanoseconds, floating point values are kept as their
bits, and pools that are shared by all devices are passed in by the caller.

The library calls a few crates for digests, ciphers, hexadecimal text, big
integers, versions and MAC addresses. Each of those calls stands in a small
function of its own whose comment says what is taken for granted.
