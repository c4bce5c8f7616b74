# chat-relay

A relay for lines of JSON. A peer connects, registers a name, and sends messages to other
registered names or to all of them. The relay reads what it needs to route a message, stamps the
sender's name on it, and passes the payload on unread.

- `src/` is the library: every decision of the relay, with contracts that Verus proves.
  - `relay`: what a line from a connection brings about, and what happens when a connection goes.
  - `registry`: who is registered, and which names are reserved.
  - `request`, `message`: from a JSON message to what it asks for.
  - `session`: handing lines to a connection; slow ones are closed.
  - `json`: reading and building JSON values.
  - `secret`, `text`, `table`, `limits`: tokens, names, tables keyed by name, limits.
  - `settings`, `bind`, `tls`: how the relay is set up, and how it comes to listen.
  - `laws`: what holds of the relay as a whole.
- `app/` is the program: sockets, files, the environment and the clock.
- `tests/` runs the library.

Times are nanoseconds from the start of the relay. The registry is kept in memory only.
