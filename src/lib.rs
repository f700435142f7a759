//! A host for RPC services of three call shapes (unary, server streaming and
//! bidirectional streaming), with the bounded, ordered channel that carries a
//! streaming call's outbound messages and gives the host backpressure.

pub mod channel;
pub mod services;
pub mod call;
pub mod registry;
pub mod host;
