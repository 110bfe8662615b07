# rust_dap_rp

The logic of a debug probe on the Raspberry Pi Pico 2, written in Rust and verified with
Verus.

- `src/bridge.rs`, `src/queue.rs`: the bridge between the USB serial port and the UART, and
  the queues that its bytes pass through
- `src/loops.rs`: what the loops of the bridge do over all their steps
- `src/flow.rs`: what the bridge and the tasks achieve together
- `src/tasks.rs`: the order in which the tasks of the firmware act
- `src/uart_config.rs`: the settings of the UART and the line codings that they serve
- `src/board.rs`: pins, names and first settings of the board
- `src/clock.rs`, `src/single.rs`: clock divisors, in single precision on integers
- `src/program.rs`, `src/assembler.rs`, `src/machine.rs`: the pin programs of the
  programmable I/O blocks, their encoding, and what they do
- `app/`: the firmware around the library
