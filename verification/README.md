# prototyper

Logic of a RISC-V machine-mode firmware that offers the supervisor binary interface (SBI), written
in Verus.

- `src/rpmi/` moves messages to and from the platform management processor: message headers, the
  shared-memory queues, the mailbox over four of them, and the clients of the base and performance
  services.
- `src/sbi/` holds the extensions: hart state management, system suspend and reset, firmware
  features, debug triggers, software events, the message proxy, performance control, steal-time
  accounting and nested acceleration; and the detection of a hart's features and the set-up of its
  registers.
- `src/ext/` declares the extensions as traits, for implementations elsewhere.
- `src/firmware/` programs protected memory windows.
- `src/platform/` finds the mailbox in the device tree and orders the initialization of a board and
  the course of each hart through the firmware.

The library holds no register and no shared memory. Where a decision depends on one, a function
takes what was read as a value, or says what is to be read or written next and goes on with the
answer. `app/` performs these accesses on a hart. It reads the device tree and enters traps on
`riscv64` only.

What the library says of itself beyond the contracts of its functions stands in public proof
functions next to the types they are about.
