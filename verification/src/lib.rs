pub mod client;
pub mod codec;
pub mod crypto;
pub mod protocol;
pub mod relay;
pub mod transport;
