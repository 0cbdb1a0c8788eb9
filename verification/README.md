# reactive_rs2

A synchronous reactive library in the style of ReactiveML, verified with Verus.

A reactive program is built from processes: user functions, pauses,
sequences, choices, loops, parallel compositions and signal operations
(emission, waiting, presence tests and the value of the previous instant).
A process is compiled into a control-flow graph of nodes, which a runtime
executes instant by instant.

Layout:

- `src/value.rs`: the values that flow between processes.
- `src/signal.rs`: signals, their values and the laws of their operations.
- `src/node/`: the nodes of the graph, what a call of each does
  (`call_post`), and the drawing of the graph in the dot language.
- `src/process/`: the processes, their compilation to nodes (construct by
  construct, `compilation::compiles`), and their drawing at the process
  level.
- `src/graph.rs`, `src/engine.rs`: the graph and the runtime; an instant is
  specified by `instant_post`, and a runtime built from a process only ever
  schedules ids of its nodes (`Runtime::closed`).
- `src/dsl.rs`: the grammar of the `pro`, `node` and `mimpl` notations,
  read from token trees.
- A node that meets an input it cannot act on (a load from an empty cell,
  a once-function called again, a list of values to emit whose length
  differs from that of its signals) does nothing else and records the
  refusal in `SubRuntime::refused`, which `Runtime::refused` reports.
- `tests/`: scenarios and checks of the laws on concrete values.
- `app/`: the printing of the drawings, and two example programs (a game of
  life and a planets simulation).
