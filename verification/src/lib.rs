//! Client-side transport stack for a live-room danmaku feed: the binary packet
//! codec, frame decoding, heartbeat scheduling, reconnection policy and the
//! session configuration builder.

pub mod builder;
pub mod config;
pub mod errors;
pub mod packet;
pub mod retry;
pub mod session;
pub mod stream;
pub mod text;
pub mod wire;

pub use builder::ConfigBuilder;
pub use config::StreamConfig;
pub use errors::BuildError;
pub use errors::IncompleteResult;
pub use errors::Needed;
pub use errors::ParseError;
pub use errors::StreamError;
pub use errors::TransportError;
pub use packet::Operation;
pub use packet::Packet;
pub use packet::Protocol;
pub use retry::RetryConfig;
pub use retry::RetryContext;
