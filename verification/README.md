# neon

A thread-local async runtime whose decisions are verified with Verus.

- `src/` is the library. `driver` holds the keys that travel through the kernel, the
  queues of requests, the routing of completions and events to handlers, and the
  order in which a driver polls, submits and blocks. `rt` holds the queue of
  runnable tasks, the turn that drives a future to its end, the configuration and
  the values that a runtime keeps.
- `app/` is the runtime around it: system calls, threads and futures. It performs
  what the library asks for and reports back what came of it.
- `tests/` run the library on concrete values.

A task stands in the library as a ticket, a number by which `app/` finds it again. The
laws of the library are the public proof functions whose names start with `law_`.
