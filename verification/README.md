# ublox-sockets

TCP and UDP sockets for u-blox modules, with their buffers and the set that holds them. The
library neither sends nor receives by itself: a driver puts received octets into a socket, takes
octets to send out of it, and reports the state of the connection.

The library under `src/` is verified with Verus.

- `ring_buffer`: the ring buffer that the sockets queue octets in.
- `tcp`, `udp`: the sockets. The view of a socket is a plain value, and each operation is a
  function on such values.
- `set`: sets of sockets, and the handles that tell the sockets apart.
- `net`, `time`: addresses and times as plain numbers, answered for by `no_std_net` and
  `embassy_time`.
- `waker`, `meta`: the task to wake, and what a set keeps about a socket.

Properties that relate several operations are public proof functions whose names begin with
`law_`.

`app/` holds what is ordinary Rust around the library: conversions from and to the types of the
outside crates, handles for `serde`, texts for `defmt`, and sending that has to wait.
