# drbd_events

Reads the output of `drbdsetup events2` into typed DRBD state updates, with
the reading proved correct by Verus.

- `src/text.rs`: whitespace, word splitting, trimming and `key:value` splitting
  over character sequences.
- `src/number.rs`: decimal `u64` and `i32` values.
- `src/drbd.rs`: the DRBD objects (resources, devices, connections, peer
  devices, paths), their models and the names of their states.
- `src/events.rs`: reading one line into an update, what the stream reader
  does with each raw line, and the decisions of the loop that restarts it.
- `src/laws.rs`: properties that span several functions.
- `app/lib.rs`: starts `drbdsetup`, reads its output and sends the updates
  into a channel.
