# hapcli

The logic of a desktop terminal, as a library that Verus verifies. A function states in its contract
what it returns or changes, and Verus proves that contract from the contracts of what it calls.

Not proved, but believed, is what the library says of other crates and of the parts of the standard
library that Verus has no contracts for. Each such item is marked `external_body` or is an
`assume_specification`, and its doc comment says what is believed of it: JSON values (`src/json.rs`), secrets that are wiped
(`src/wiped.rs`, `src/plugin/protocol.rs`), quoting and lower case (`src/text.rs`), clients and their
proxies (`src/network_proxy.rs`), whether the bytes of a file are a font (`src/desktop/fonts.rs`),
the identifiers of transfers (`src/plugin/scp.rs`) and the time of an export (`src/forwarding.rs`).
Of an identifier and of a time only the form is stated, since which one it is rests on chance or on
the clock.

- `src/desktop/`: the terminal program itself: keys and mouse to bytes, screen and selection,
  search, recordings, tabs, the connection form, file transfer, port forwarding, quick commands,
  settings, and updates.
- `src/plugin/`: manifests of plugins and their checks, the messages between a plugin and its host,
  and the runtimes of plugins.
- `src/remote_desktop/`, `src/audio/`: frames, requests and certificates of remote desktops, and
  the sound that goes with them.
- `src/environment/`, `src/ide/`, `src/network_proxy.rs`, `src/forwarding.rs`, `src/portable.rs`:
  projects found on disk, remote editing, proxies, saved forwards, and portable installations.
- `src/text.rs`, `src/bytes.rs`, `src/order.rs`, `src/sorting.rs`, `src/assoc.rs`, `src/paths.rs`,
  `src/json.rs`, `src/wiped.rs`: what the others build on.

Proof functions whose names start with `law_` state what holds across several functions.

`app/` is the program around the library: files, the network, the clock, and floating-point numbers.
`tests/` runs the library.
