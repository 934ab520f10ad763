# scanet

A terminal tool that finds the devices of the local network by pinging a
range of addresses, and shows each with its MAC address, vendor and
hostname.

- `src/` is the library, verified with Verus: IPv4 addresses and their
  dotted-decimal text, CIDR blocks, the parsing of `arp -a` output, the
  device list (kept sorted by address, one entry per address), the
  application state with its range dialog, the decisions of the event loop
  (what each scan message and key press does, and what runs next), the
  texts shown on screen, and the layout of the dialogs.  `src/laws.rs`
  states the properties that span several calls.
- `app/` is the program around it: terminal setup and drawing with
  ratatui, the tokio event loop, and the outside work (`ping`, `arp`,
  DNS, the online vendor lookup).
- `tests/` runs the library on concrete values.
