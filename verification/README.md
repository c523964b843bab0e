# ethernet

Ethernet transport: raw IEEE 802.3 frames below IP under Xmip's own EtherType —
one frame is one Stream up to the MTU, jumbo where the link allows; an
in-process loopback link everywhere, the OS raw socket where it is permitted.

- `src/` is the library, verified with Verus: addresses (`mac`), frames
  (`frame`), links (`link`), the transport over both (`transport`), what goes
  wrong (`error`), the digits in texts (`text`), and what holds of all of it
  together (`laws`).
- `tests/` runs it.
- `app/` shares a link behind a lock and gives the library the traits of the
  `transport` crate.
