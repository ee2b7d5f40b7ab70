# portus-window

A window host that lets an agent show web pages and local media to a user as desktop
windows, and a command-line client that drives it over a local socket with
newline-terminated JSON frames.

- `src/` is the verified core, checked by Verus: the protocol values and framing, the
  client's command rules, the daemon's answers to refused or unreadable requests, the
  window registry and target resolution, page events, declarative layouts, local-media
  admission and byte ranges, the web-video service's routing, the authenticated-session
  authority, consent and cookie broker, the interaction scripts, screenshot validation,
  profile paths and the history database's rules.
- `app/` is the command-line client (argument parsing, socket I/O, printing) and the
  daemon's file, socket and cookie-store work around the core. The daemon's window host
  needs a desktop web-view toolkit and is not part of this crate.
- `tests/` exercises the core on concrete values.
