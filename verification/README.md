# triad_client

A client for the Triad compositor's IPC protocol, as a status bar uses it: it keeps
the compositor's workspaces and keyboard layout and announces their changes.

- `src/` is the verified library (Verus): workspace conversion (`workspace`),
  base-ten names (`decimal`), the snapshot diff (`updates`), keyboard layouts
  (`keyboard`), the client's state and how reports change it (`client`), requests,
  reply and event classification and the socket choice (`protocol`), the decisions of
  the reconnecting connection loop (`link`), and properties across calls (`laws`).
- `app/` is the I/O around it: the Unix socket, JSON through serde, the tokio task that
  performs the connection loop's actions, and the broadcast channels of subscribers.
- `tests/` exercises the library.
