# directscreen_core

The core of DirectScreen, a display, touch and rendering service for Android
devices, with its module runtime, written in Verus: every function of the
library under `src/` carries a `requires`/`ensures` contract that Verus proves.

## Layout

- `src/` — the verified library.
  - `protocol`, `wire`, `ctl_wire`, `daemon`, `framepull`, `frame_requests`:
    the binary control protocol, its frames and the control client's text
    commands (floats travel as `f32` bits).
  - `engine`, `frames`, `keyboard`, `touch_router`, `touch_tracker`, `pixels`:
    the runtime state of display, touches, keyboard events and rendered
    frames.
  - `module_registry`, `module_runtime`, `module_rpc`, `module_files`,
    `module_session`, `state_files`: modules, their scope rules, their
    files and the module requests. A request is answered from the host's
    events (disk scans, looks at module files, script runs, file writes);
    `handle_rpc` states, for every request, the reply and the new registry
    and scope rules as a function of the old state, the request and those
    events.
  - `daemon_config`, `cli_args`, `input_args`, `client`, `util`, `text`,
    `keyed`, `api`, `ffi_types`: configuration, arguments, text and the
    shared types.
- `app/` — plain Rust around the library: sockets, files, processes, input
  devices, the GPU backend, the C ABI, and the floats the library carries as
  bits (parsing them and writing them with their decimals).
- `tests/` — tests of the library on concrete values.
