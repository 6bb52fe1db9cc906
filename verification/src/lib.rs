//! A library for writing OpenSMTPD filters: it parses the line protocol that
//! the mail daemon speaks on a filter's standard input, keeps per-session
//! state, dispatches events to a user-supplied [`Filter`], and renders the
//! replies the daemon expects.

pub mod filter;
pub mod ip;
pub mod number;
pub mod protocol;
pub mod runner;
pub mod text;
pub mod types;

pub use filter::{Filter, FilterResponse};
pub use ip::{IpAddr, SocketAddr};
pub use protocol::ParseError;
pub use runner::{Registration, SmtpFilterRunner};
pub use types::{Address, AuthStatus, Direction, Event, FilterKind, Phase, Session, Status, Timestamp};
