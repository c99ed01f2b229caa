# tsubasa

The decision core of a torrent client that can offload downloads to debrid
services (Torbox, Real-Debrid), written in Verus and verified.

- `src/` is the verified library: the torrent state machine and the engine's
  poll round, the queue's slot allocation, IP blocklists, retry policy, tracker
  health, seeding rules, settings (grouped and flat, with their stored rows),
  magnet and search-result parsing, the cloud download lifecycle, and the
  provider replies and request URLs.
- `tests/` runs the library on concrete values.
- `app/` is the unverified shell around it: file I/O (blocklists and session
  files), the async loops that drive the library's retry and cloud-lifecycle
  decisions over a provider interface (`CloudApi`) that an HTTP client
  implements, the event bus, serde copies of its types, and the
  floating-point speed graphs.
