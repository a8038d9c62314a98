# opendisplay

The Windows sender of OpenDisplay: it turns an iPad or iPhone running the
OpenDisplay receiver into an extra display, over WiFi or a USB cable.

## Layout

- `src/` is the verified library, written in Verus. Its functions state
  their behaviour as `requires` / `ensures` contracts over mathematical
  models (`Seq`, `Map`, spec enums), and Verus proves the code against them.
  The traits behind which the system's own work sits (sockets, the pipe,
  the registry, input injection) carry spec functions for what a call may
  return or what it records, so that the functions calling them can say
  which call gave their result:
  - `protocol`: the length-prefixed wire framing and its constants;
  - `protocol_session`: the hello / welcome handshake, frame reads and writes;
  - `session_state`, `session_driver`: the reconnect state machine and the
    decisions of the session loop (state and event in, next state and action
    out);
  - `ipc`, `ipc_server`, `json`: the tray/core message schema, its JSON
    encoding and the core's handling of each request;
  - `transport`: WiFi (mDNS) and USB device bookkeeping and the transport
    choice;
  - `cursor`, `display_spec`, `display`, `capture`, `encode`, `input`,
    `base64`: per-frame and per-event computations;
  - `tray`, `installer`, `log`, `bootstrap`: the tray model and menus, the
    installer steps, the log rotation policy and the elevation check.
- `tests/` runs the library on concrete values.
- `app/` is the program around the library: the command-line entry point,
  the Windows API calls, file and pipe I/O, mDNS and usbmuxd, and the async
  runtime. It hands the library plain values and acts on what it returns.

`serde_json` is the one outside crate the library calls; each call sits
behind one small wrapper in `src/json.rs` whose contract says what it claims.
