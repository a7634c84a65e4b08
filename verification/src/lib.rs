//! Identity-continuation protocol core.
//!
//! A holder of a private identity state proves that the state was attested by
//! a server, that none of its tickets has been revoked, and derives the public
//! journal of the transition. Every function here is pure and synchronous.

pub mod ban;
pub mod boundary;
pub mod commitment;
pub mod decimal;
pub mod error;
pub mod little_endian;
pub mod signature;
pub mod state;
pub mod transition;

pub use ban::evaluate;
pub use commitment::compute_commitment;
pub use error::ProtocolError;
pub use state::{Journal, PrivateInput, UserObject};
pub use transition::execute_transition;
