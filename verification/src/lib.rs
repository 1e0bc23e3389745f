//! A treasury library: weighted distribution of a fungible asset across a
//! configured table of recipients, and collection of idle fee balances into
//! the distributable asset through an external exchange service.
//!
//! The engines are pure functions from explicit state and observed balances
//! to a batch of outbound instructions; the host executes the batch
//! atomically.

pub mod asset;
pub mod collect;
pub mod distribute;
pub mod error;
pub mod instr;
pub mod math;
pub mod state;

pub use error::ContractError;
