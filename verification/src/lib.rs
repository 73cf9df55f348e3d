//! Core logic of a quote-of-the-day service: the quote database grammar, the
//! quote store, the wire framing of a response, and the decisions taken by
//! the listeners and by the process that starts them.

pub mod connection;
pub mod database;
pub mod listener;
pub mod response;
pub mod split;
pub mod startup;
pub mod store;
pub mod text;
pub mod tls;
