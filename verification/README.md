# rust_im

A small instant-messaging system: a server that registers users, checks
their logins and relays chat messages, and a desktop client.

`src/` is the verified library (Verus):

- `decimal` — decimal text of `usize` values and its reading back.
- `backend::libs` — users and groups (`usergroup`), messages (`message`),
  the server's error kinds (`error`), flat records (`fields`) and their
  JSON text through the `json` crate (`json_text`).
- `backend::frame` — frames on the wire: a message's JSON text as UTF-8,
  padded with zero bytes to `MEG_SIZE`, and its reading back.
- `backend::server` — accounts, sign-up and login decisions, routing of
  chat messages; `backend::server::api` — the address the server listens on.
- `backend::client` — a client's session and requests;
  `backend::client::api` — the session as the windows drive it.
- `gui` — scrolling of lists, the table of conversations, form checks.
- `log` — the log's lines, and taking values out of results.

`app/` is the program around it: sockets, threads, the log's output and
the FLTK windows. Run it with `s` as its only argument to start the server
on port 3888; without arguments it opens the client.
