//! A clipboard that several computers share.
//!
//! A server passes on what any of its clients has on its clipboard to all the others,
//! encrypted where they share a password. This library decides: what to send and what a
//! message means (`clipboard`, `connect`, `crypto`), how a client asks for a connection
//! and how the server answers (`client`, `server`, `headers`, `body`), who receives a
//! message (`peers`), and how the program is installed as a background service
//! (`service`, `launchd`, `install`, `steps`). The program around it reads and writes:
//! the network, the clipboard, files and commands.
pub mod body;
pub mod bytes;
pub mod cli;
pub mod client;
pub mod clipboard;
pub mod connect;
pub mod crypto;
pub mod errors;
pub mod headers;
pub mod install;
pub mod launchd;
pub mod peers;
pub mod server;
pub mod service;
pub mod steps;
pub mod text;
