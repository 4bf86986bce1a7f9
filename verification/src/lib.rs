//! Core of a remote-access manager: an encrypted credential vault for server
//! profiles, transport planning (direct, proxied, or tunneled through a jump
//! host), authentication decisions, and the registries and state machines for
//! interactive shell and file-transfer sessions.
//!
//! Network and disk I/O are performed by a thin driver outside this crate; the
//! logic here is verified against the contracts stated on each item.

pub mod auth;
pub mod crypto;
pub mod errors;
pub mod ident;
pub mod models;
pub mod registry;
pub mod sftp;
pub mod shell;
pub mod storage;
pub mod transport;
