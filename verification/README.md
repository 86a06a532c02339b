# farreach

A remote embedded-debugging station: a bench host (the agent) owns the
USB/JTAG/UART connections, and a workstation uploads firmware to it over Iroh,
has it flashed with a configured command, and follows the logs.

- `src/` is the verified library: target selection, command-template
  rendering, the length-prefixed frame format, identity-file text, the agent's
  per-connection state machine, the command and SEGGER RTT monitors' event
  logic, and the workstation's event handling.
- `app/` is the program around it: command-line parsing, the Iroh endpoint,
  files, processes, TCP and the serialized (JSON/TOML) forms of the types.
- `tests/` exercises the library on concrete values.
