# xactor

An actor framework: actors own mailboxes, handle typed messages, forward
streams, subscribe to brokers, run under supervisors and register as
services.

* `src/` is the library, verified with Verus: the decisions an actor's event
  loop and a supervisor's make for each mailbox event, the forwarding of a
  stream into a mailbox, the stream table (on `slab`), the broker's
  subscriber table (an FNV-hashed `HashMap`), the typed `Sender`, the service
  registry, actor identifiers and the count of running actors. Each public
  function states its result in its contract; the laws that relate several
  calls (stops are final, supervisors restart on stop, streams are forwarded
  in order and forgotten when they end, identifiers are not reused, ...) are
  public proof functions next to the functions they speak of.
* `app/` is the asynchronous shell on async-std: `Actor`, `Handler`,
  `StreamHandler`, `Addr`, `Context`, `Caller`, `Supervisor`, `Service`,
  `System`. It owns the channels and tasks and calls the library for every
  decision.
* `tests/` exercises the library on concrete values.
