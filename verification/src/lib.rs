//! The decisions of a terminal multiplexer's links to the outside: SSH
//! sessions, TLS and unix domain connections, the agent socket, the
//! certificate authority and the connection user interface.
//!
//! Everything here works on plain values. Sockets, timers, processes and the
//! SSH and TLS libraries are driven by a program around this library, which
//! performs the actions it is told to and reports what came of them.

#![allow(unused_imports)]

pub mod auth;
pub mod auth_ssh2;
pub mod channels;
pub mod client;
pub mod config_map;
pub mod connui;
pub mod connect;
pub mod directory;
pub mod exec;
pub mod mux_server;
pub mod path;
pub mod pem;
pub mod pki;
pub mod reader;
pub mod reconnect;
pub mod request_loop;
pub mod session;
pub mod session_inner;
pub mod session_run;
pub mod spawn;
pub mod ssh_agent;
pub mod stream;
pub mod terminal;
pub mod text;
pub mod tls;
pub mod tls_connect;
pub mod unilateral;
