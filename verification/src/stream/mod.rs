//! What sits between the socket and the consumer of packets: frame
//! decoding, heartbeat scheduling, and the two directions of wake-up.

pub mod codec;
pub mod heartbeat;
