# delta_core

The verified core of the Delta agent runtime, written in Verus.

- `src/` is the library. Every function in it is verified against its
  contract: the capability host and its runners, the tool-call pipeline
  (policy, approval, replay, uncertainty, artifacts), the turn loop's
  decisions, restart recovery, event delivery, provider request bodies,
  stream readers and replies, the MCP client's protocol, the application
  authority and the control plane's decisions.
- `app/` is the host around it: processes, files, HTTP, clocks and the
  loops that perform what the library decides.
- `tests/` exercises the library from outside.
