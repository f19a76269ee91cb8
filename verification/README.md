# paperpad

PaperPad is a remote monochrome framebuffer client for a Kindle: it shows the
frames the PaperSpoon host sends, forwards viewport-relative pointer events
over Wi-Fi and keeps a device-local Exit control. PaperSpoon lays out the
application UI and resolves taps on it. This crate has no font, so the
application frames it renders show the button outlines only, without the
title, labels or status text; PaperSpoon also sends operator-requested
diagnostic frames. Exit fills PaperPad's bottom 72 px strip, less 20 px on
each side. The line companion logs the Kindle's semantic activations.

This crate is written in Verus. Everything that decides or computes is in
`src/` and carries a `requires`/`ensures` contract proved by Verus; the
programs around it are in `app/`, which Verus does not see.

## Layout

| Area | Where |
| --- | --- |
| Mono1 frames, protocol-v2 framing and typed payloads | `src/framebuffer.rs`, `src/wire.rs`, `src/v2.rs`, `src/v2_payload.rs` |
| UDP discovery datagrams and endpoint selection | `src/datagram.rs`, `src/discovery.rs`, `src/bonjour.rs` |
| Line protocol between Kindle and companion, and its laws | `src/transport.rs`, `src/transport_parse.rs`, `src/transport_laws.rs`, `src/line_reader.rs` |
| Inbound frames, the frame mailbox, connection generations | `src/net.rs`, `src/connection.rs` |
| Screen partition, grid, Exit control, contacts, application state, pointer forwarding | `src/screen.rs`, `src/ui/`, `src/app_state.rs`, `src/remote_pointer.rs` |
| Frame cache, X11 bitmap conversion and request splitting | `src/display.rs`, `src/x11.rs` |
| Direct-framebuffer geometry, pixels and update requests | `src/mxcfb/` |
| PaperSpoon host: application UI and input, diagnostic frames, framing | `src/paperspoon/` |
| Companion decisions: command line, sessions, de-duplication | `src/companion.rs` |
| Programs: Kindle client, PaperSpoon listener, companion, diagnostics | `app/` |

`app/main.rs` picks the program by the name it runs under: `paperspoon`,
`companion`, or the Kindle client otherwise. The Kindle client also takes
`inspect-framebuffer`, `bonjour` and `multicast-probe` as diagnostic
subcommands.

## Configuration

- `RUST_X11_HELLO_COMPANION`: an explicit PaperSpoon host; without it the
  client discovers PaperSpoon over UDP.
- `RUST_X11_HELLO_COMPANION_PORT`: the explicit host's TCP port (default
  5581); only valid together with a host.
- `RUST_X11_HELLO_COMPANION_ID_FILE`: the companion's identity file when none
  is given on its command line.
