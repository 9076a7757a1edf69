pub mod error;
pub mod ip;
pub mod laws;
pub mod log;
pub mod loopback;
pub mod naming;
pub mod net;
pub mod platform;
