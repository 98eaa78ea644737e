//! A front-end for debuggers that speak DBGp: the protocol client, the history of
//! breaks, the source analyzer, channels of process output, and the session's
//! continuation scheduler.

pub mod analyzer;
pub mod channel;
pub mod client;
pub mod config;
pub mod dbgp;
pub mod decode;
pub mod history;
pub mod label;
pub mod notification;
pub mod session;
pub mod snapshot;
pub mod text;
pub mod theme;
pub mod workspace;
pub mod xml;
