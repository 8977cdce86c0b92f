# termlink

The links of a terminal multiplexer to the outside: SSH sessions, TLS and unix
domain connections, reconnecting, the agent symlink, the certificate authority
of the TLS server, and the user interface that goes with a connection.

`src/` is a Verus library. It holds what is decided and computed, as functions
and state machines on plain values with contracts that Verus proves. A state
machine takes an event and gives the next action; its contract says what both
are, and public proof functions state what holds over whole conversations.

- `auth`, `auth_ssh2`: the two authentication conversations.
- `session`, `session_inner`, `session_run`, `request_loop`, `channels`, `exec`,
  `stream`: an SSH session from its start to its end.
- `reader`, `reconnect`, `unilateral`, `client`: a client of the multiplexer.
- `connect`, `tls`, `tls_connect`, `directory`, `path`, `pem`: reaching a server.
- `pki`: the certificate authority.
- `connui`, `terminal`: the user interface.
- `ssh_agent`: the agent symlink.
- `spawn`, `mux_server`: the server process.
- `config_map`, `text`: options and texts.

Calls into other crates that only compute stand in `src/` behind small functions
whose contracts Verus takes on trust: OpenSSL's PEM reader, rcgen, textwrap,
finl_unicode, num-traits, and nix for probing a process. Each says in its
comment what is taken on trust.

`app/` is ordinary Rust around the library: the program, its sockets, files,
threads and the SSH and TLS libraries. `tests/` runs the library on concrete
values.
