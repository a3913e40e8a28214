//! Errors of the verification.
use std::collections::{BTreeMap, BTreeSet};

use vstd::prelude::*;

use crate::codex::CallFailure;
use crate::ids::{AuthToken, CellAddress, Opid};
use crate::seals::RgbSeal;

verus! {

/// Errors returned from the verification.
pub enum VerificationError<Seal: RgbSeal, ReadError> {
    /// Error reading the consignment stream.
    Stream(ReadError),
    /// Genesis does not commit to the codex id; a wrong contract genesis is used.
    NoCodexCommitment,
    /// No witness known for the operation.
    NoWitness(Opid),
    /// Single-use seals are not closed properly with the witness for the operation.
    SealsNotClosed(Seal::PubId, Opid, Seal::ClosingError),
    /// Unknown seal definition for the cell address.
    SealUnknown(CellAddress),
    /// Seals, reported to be defined by the operation, do not match the assignments in the
    /// operation.
    SealsDefinitionMismatch {
        /// The operation.
        opid: Opid,
        /// Tokens of the reported seals, as pairs of integers.
        reported: BTreeSet<(u128, u128)>,
        /// Tokens of the cells which the operation defines, as pairs of integers.
        defined: BTreeSet<(u128, u128)>,
        /// Text of the reported seals, by the number of the output.
        sources: BTreeMap<u16, String>,
    },
    /// Error returned by the codex or by its script.
    Vm(CallFailure),
    /// The reader has handed over an operation id which is not that of the operation. Found only
    /// where the verification is told to recompute the ids.
    OpidMemoMismatch {
        /// The id which came from the reader.
        memoized: Opid,
        /// The id of the operation.
        recomputed: Opid,
    },
}

/// What a verification error says.
#[verifier::ext_equal]
pub enum ErrorView<Seal: RgbSeal, ReadError> {
    /// See [`VerificationError::Stream`].
    Stream(ReadError),
    /// See [`VerificationError::NoCodexCommitment`].
    NoCodexCommitment,
    /// See [`VerificationError::NoWitness`].
    NoWitness(Opid),
    /// See [`VerificationError::SealsNotClosed`].
    SealsNotClosed(Seal::PubId, Opid, Seal::ClosingError),
    /// See [`VerificationError::SealUnknown`].
    SealUnknown(CellAddress),
    /// See [`VerificationError::SealsDefinitionMismatch`].
    SealsDefinitionMismatch {
        /// The operation.
        opid: Opid,
        /// Tokens of the reported seals.
        reported: Set<AuthToken>,
        /// Tokens of the cells which the operation defines.
        defined: Set<AuthToken>,
        /// Text of the reported seals, by the number of the output.
        sources: Map<u16, Seq<char>>,
    },
    /// See [`VerificationError::Vm`].
    Vm(CallFailure),
    /// See [`VerificationError::OpidMemoMismatch`].
    OpidMemoMismatch {
        /// The id which came from the reader.
        memoized: Opid,
        /// The id of the operation.
        recomputed: Opid,
    },
}

/// The tokens which pairs of integers stand for.
pub open spec fn token_set(keys: Set<(u128, u128)>) -> Set<AuthToken> {
    Set::new(|token: AuthToken| keys.contains(token.spec_key()))
}

impl<Seal: RgbSeal, ReadError> View for VerificationError<Seal, ReadError> {
    type V = ErrorView<Seal, ReadError>;

    open spec fn view(&self) -> ErrorView<Seal, ReadError> {
        match *self {
            VerificationError::Stream(error) => ErrorView::Stream(error),
            VerificationError::NoCodexCommitment => ErrorView::NoCodexCommitment,
            VerificationError::NoWitness(opid) => ErrorView::NoWitness(opid),
            VerificationError::SealsNotClosed(pub_id, opid, error) => ErrorView::SealsNotClosed(
                pub_id,
                opid,
                error,
            ),
            VerificationError::SealUnknown(addr) => ErrorView::SealUnknown(addr),
            VerificationError::SealsDefinitionMismatch { opid, reported, defined, sources } => {
                ErrorView::SealsDefinitionMismatch {
                    opid,
                    reported: token_set(reported@),
                    defined: token_set(defined@),
                    sources: sources@.map_values(|text: String| text@),
                }
            },
            VerificationError::Vm(failure) => ErrorView::Vm(failure),
            VerificationError::OpidMemoMismatch { memoized, recomputed } => {
                ErrorView::OpidMemoMismatch { memoized, recomputed }
            },
        }
    }
}

/// What the result of a verification says.
pub open spec fn outcome<Seal: RgbSeal, ReadError>(
    result: Result<(), VerificationError<Seal, ReadError>>,
) -> Result<(), ErrorView<Seal, ReadError>> {
    match result {
        Ok(()) => Ok(()),
        Err(error) => Err(error@),
    }
}

} // verus!
