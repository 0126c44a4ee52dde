//! Verified core of the stock-take service.
use vstd::prelude::*;

pub mod catalog;
pub mod clock;
pub mod config;
pub mod connection;
pub mod save;
pub mod save_laws;
pub mod search;
pub mod server;
pub mod sql;
pub mod text;
pub mod text_laws;
pub mod ticket_laws;
pub mod tickets;
