# osxrdp

The logic of an RDP server for macOS, written and verified in Verus, and the
program around it.

- `src/` is the library: frames become display updates, the display adapts to
  the client, input and clipboard contents are passed on, encoded frames are
  routed through the graphics channel. Every function states in its contract
  what it returns or changes; the properties that span functions are the public
  proof functions whose names begin with `law_`.
- `app/` is the program: it captures and encodes the screen, posts events, runs
  helper programs and talks to the network, and asks the library what to do.
  The wire protocol is that of the `ironrdp-server` crate, which drives a graphics
  channel of its own: the program does not call the library's `gfx` module.
- `tests/` runs the library on concrete values.

| Variable        | Default        | Meaning                                             |
|-----------------|----------------|-----------------------------------------------------|
| `OSXRDP_ADDR`   | `0.0.0.0:3389` | Listen address and port                             |
| `OSXRDP_H264`   | `1`            | H.264 encoding (`1`), or bitmaps (any other value)  |
| `OSXRDP_ASPECT` | `fit`          | `fit` letterboxes the desktop, `native` keeps its ratio |

## Modules

| Module                                      | What it holds                                  |
|---------------------------------------------|------------------------------------------------|
| `frame_pipeline`, `diff`, `letterbox`, `update`, `pixels` | From captured frames to bitmap updates |
| `stream`, `h264`, `cg_capture`              | The stream of updates and its encoder          |
| `display`, `display_mode`, `mode_choice`    | Desktop sizes and display modes                |
| `gfx`                                       | The graphics channel                           |
| `input`, `keyboard`                         | Keyboard and mouse events                      |
| `clipboard`                                 | Clipboard redirection                          |
| `auth`, `permissions`, `startup`            | Credentials, permissions, settings             |
| `capture`, `codec`, `rdp`, `session`        | Plain sessions of tiled bitmaps                |
| `binary64`, `text`                          | Exact binary64 arithmetic, and text            |
