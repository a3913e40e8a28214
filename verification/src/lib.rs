//! Verification of RGB smart contracts.
//!
//! A contract is evaluated by verifying, one after the other, the operations which come from a
//! consignment: that the seals they define are those which they commit to, that the seals of the
//! state they destroy are closed over them by a witness, and that the codex of the contract
//! accepts them. Accepted operations are applied to the contract.
//!
//! [`verify`] is the procedure, [`model`] says what it comes to, [`journal`] records what passes
//! between it and the contract, and [`laws`] says what follows. [`block_laws`] and [`meaning`] say
//! what it does without the terms of the model, in those of its inputs and results.
//!
//! A specification function of a trait says nothing by itself. An implementation which is verified
//! defines it; one which is not may leave it out.
pub mod api;
pub mod block_laws;
pub mod codex;
pub mod diagnostics;
pub mod error;
pub mod ids;
pub mod journal;
pub mod laws;
pub mod meaning;
pub mod memo;
pub mod model;
pub mod operation;
pub mod seal_map;
pub mod seals;
pub mod text;
pub mod verify;

pub use api::{ContractApi, OperationSeals, ReadOperation};
pub use error::VerificationError;
pub use verify::ContractVerify;
