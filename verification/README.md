# task_dispatch

A controller hands tasks of a given size to a pool of echo servers, starting
a new server when none has room; clients frame their tasks with an eight-byte
big-endian size prefix and check the echo they get back.

- `src/` is the verified library: the wire format (`wire`), socket addresses
  (`helper`), servers (`server`), the task bodies (`task`), and the three
  setups: a single-exchange controller and client (`controller`, `client`),
  the client-based setup (`client_based`) and the task-based client
  (`task_based`).
- `app/` is the program around it: sockets, threads, clocks and printing.
- `tests/` runs the library on concrete values.
