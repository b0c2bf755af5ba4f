//! A multi-user chat engine.
//!
//! The library holds what a chat server decides and what its client
//! decides, each function with a contract that Verus proves:
//!
//! - `wire`: the frames of the stream, a length and a payload;
//! - `packet`, `types`: the packets and the entities in them, with their
//!   views;
//! - `perm`, `roles`: the permission masks and the ordered role table;
//! - `state`, `store`: the persistent state as a value and in memory, with
//!   the rules that every change keeps;
//! - `limiter`, `registry`: the rate limits of the users and the table of
//!   live connections;
//! - `server`, `auth`, `engine`: what each request does, how a session logs
//!   in, and the server as one value that handles one packet at a time;
//! - `client`, `parser`: the client's login decisions and its command
//!   line;
//! - `secrets`, `names`, `idlist`, `rows`, `seqs`, `config`, `consts`: the
//!   smaller tools;
//! - `outside`: the calls into code that is not verified here.
//!
//! Sockets, TLS, files and the serialization of packets are the business
//! of the program around the library.

pub mod auth;
pub mod client;
pub mod config;
pub mod consts;
pub mod engine;
pub mod idlist;
pub mod limiter;
pub mod names;
pub mod outside;
pub mod packet;
pub mod parser;
pub mod perm;
pub mod registry;
pub mod roles;
pub mod rows;
pub mod secrets;
pub mod seqs;
pub mod server;
pub mod state;
pub mod store;
pub mod types;
pub mod wire;
