//! The rendezvous server's decisions, apart from its sockets.
pub mod addr;
pub mod clock;
pub mod console;
pub mod history;
pub mod jwt;
pub mod keys;
pub mod limits;
pub mod meeting;
pub mod message;
pub mod peer;
pub mod punch;
pub mod punch_log;
pub mod relay;
pub mod routes;
pub mod server;
pub mod startup;
pub mod state;
pub mod table;
pub mod tcp;
pub mod text;
pub mod udp;
pub mod ws;
