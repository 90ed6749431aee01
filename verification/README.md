# Tevir

Tevir is a network software KVM. A controller captures the keyboard and pointer
of its desktop, moves the focus through an arrangement of screens, and delivers
typed events to an agent on the focused node. Clipboard texts travel both ways.

The library under `src/` holds the rules of the project, verified with Verus:

- `domain`: node names, geometry, displays, input events and arrangements.
- `encoding`, `digest`, `text`, `time`, `saturating`: small building blocks.
- `identity`: credentials, pairing bundles and trusted nodes.
- `protocol`: messages, frames and clipboard transfers.
- `transport`: limits, handshakes, framing and replay protection.
- `session`: focus routing, ordered delivery and clipboard ownership.
- `discovery`: records of nodes on the local network.
- `platform`: native events, held input, capture and injection.
- `runtime`: what a running controller or agent does with each event.
- `config`, `editor`: configurations, and the fields that describe them.
- `window`, `desktop`, `telemetry`: what the desktop application shows and logs.

Each executable function states in its contract what it returns or changes. Laws
that span several functions are public proof functions named `law_...`.

Calls into other crates stand behind small functions whose contracts are
trusted: Base64 (`encoding`), SHA-256 (`digest`), frame buffers
(`protocol::codec`), the serialized clipboard text (`protocol::clipboard`) and
the key tables (`platform::convert`). So do two functions of the standard library
(`text`): appending to a text, and reading one from UTF-8.

The application under `app/` does the input and output: files, the network, the
portals of the Linux desktop and the window. It performs what the library
decides and hands back what happened. The tests are under `tests/`.
