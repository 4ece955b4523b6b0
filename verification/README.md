# links_nonblocking

A non-blocking, frame-oriented TCP messaging library whose decision logic is
verified with Verus.

* `src/` is the verified library: the outcome types of accept / receive / send
  attempts, the busy-wait retry rules, frame reassembly over a `bytes::BytesMut`
  accumulator (`frame`), whole-or-nothing frame writing (`write`), round-robin
  connection pools (`pool`), the acceptor's connection gate and the poll handler's
  shutdown latch (`gate`), the poll service and send-hook rules (`service`), and an
  in-memory message log (`persistence`).
* `app/` is the networking layer built on it with `mio`: frame reader and writer,
  messengers, client connections, pools, services and the poll handler thread. It
  performs the I/O and asks the library for every decision.
* `tests/` exercises the library on concrete values.
