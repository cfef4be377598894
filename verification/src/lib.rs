//! Verified core of a host/guest stdio bridge: a readiness registry, the
//! decisions of a readiness-to-async stream adapter, a dual-pipe channel and
//! the lifecycle decisions of the two orchestrators that share it.

pub mod bridge;
pub mod channel;
pub mod llm;
pub mod monitor;
pub mod pipe;
pub mod registry;
pub mod scope;
pub mod session;
