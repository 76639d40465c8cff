# bc_server

The game server behind Bondage Club's multiplayer: accounts, chat rooms,
relations between characters, and the underground prison, driven over
socket.io.

- `src/` is the verified library. The server's decisions (login and account
  creation, password hashing and reset numbers, room search, entry,
  creation and administration, chat and item relay, who a relation request
  may reach, ownership and lovership steps, prison rentals, ransoms and
  expiry, the account document and its partial updates, rate limits) are
  functions with contracts that Verus proves. Calls into bcrypt, rand,
  base64, regex and chrono stand behind small trusted functions whose
  contracts say what those crates document.
- `app/` is the server around it: the socket.io handlers, which read
  requests, call the library and send what it decided; the MongoDB and
  SQLite stores; mail; configuration from the environment; and the timers.
- `tests/` runs the library on concrete values.
