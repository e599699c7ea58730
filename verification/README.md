# rngrok

An ngrok-style tunnel: a server with public HTTP, HTTPS and TCP ports relays
connections over proxy connections of a client to services on the client's
side.

- `src/` is the verified library: packet framing (`pack`), HTTP head parsing
  and random ids (`util`), the messages and their wire names (`msg`), a
  string-keyed map (`strmap`), string helpers (`text`), and the decisions of
  the client (`client`) and the server (`server`).
- `app/` is the program around it: sockets, TLS, timeouts, JSON and YAML.
  Run it as `client [client.yml]` or `server [server.yml]`.
- `tests/` runs the library on concrete inputs.
