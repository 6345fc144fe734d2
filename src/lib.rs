pub mod frame;
pub mod handshake;
pub mod message;
pub mod sodium;
