//! Outbound transaction forwarding.
//!
//! A dispatcher keeps one lane set per destination and creates it on first
//! contact. Each lane gathers the packets that wait on its queue into one
//! batch, and the batch is sent in chunks no larger than the number of
//! streams the transport may have open at once. Everything here is
//! synchronous: the caller owns the tasks, the clock and the sockets, and
//! asks this crate what to do next.

pub mod address;
pub mod packet;
pub mod lane;
pub mod dispatcher;
pub mod pipeline;
pub mod transport;
pub mod endpoint;
pub mod postgres;
