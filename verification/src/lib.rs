//! Client side of a length-prefixed, correlation-tagged binary protocol: the
//! frame codec and the connection-lifecycle state machine of the client actor.

pub mod client;
pub mod ids;
pub mod pkg;
pub mod wire;
