//! What the verification takes: operations with their seals from a consignment, and the contract.
use vstd::prelude::*;

use crate::codex::{LibRepo, Memory, VerifiedOperation};
use crate::ids::{CellAddress, ContractId, Opid};
use crate::operation::{ContractOperation, OperationView};
use crate::seals::{DefinedSeals, RgbSeal, RgbSealDef, SealWitness};

verus! {

/// Combination of an operation with operation-defined seals.
///
/// An operation contains only tokens of authority, which are commitments to seal definitions.
/// Hence, a full seal definition is included separately next to the operation data.
pub struct OperationSeals<Seal: RgbSeal> {
    /// The operation.
    pub operation: ContractOperation,
    /// Seals defined by the operation.
    pub defined_seals: DefinedSeals<Seal::Definition>,
    /// An optional witness for the closing of the operation input seals.
    pub witness: Option<SealWitness<Seal>>,
}

/// What an operation with its seals consists of.
#[verifier::ext_equal]
pub struct BlockView<Seal: RgbSeal> {
    /// The operation.
    pub operation: OperationView,
    /// Seals defined by the operation, by the number of the output.
    pub defined_seals: Map<u16, Seal::Definition>,
    /// The witness for the closing of the operation input seals.
    pub witness: Option<SealWitness<Seal>>,
}

impl<Seal: RgbSeal> View for OperationSeals<Seal> {
    type V = BlockView<Seal>;

    open spec fn view(&self) -> BlockView<Seal> {
        BlockView {
            operation: self.operation@,
            defined_seals: self.defined_seals@,
            witness: self.witness,
        }
    }
}

impl<Seal: RgbSeal> Clone for OperationSeals<Seal> where
    Seal::Definition: Clone,
    Seal::PubWitness: Clone,
    Seal::CliWitness: Clone,
 {
    fn clone(&self) -> (copy: Self)
        ensures
            copy.operation@ == self.operation@,
            copy.defined_seals@ == self.defined_seals@,
            match (self.witness, copy.witness) {
                (Some(witness), Some(copied)) => cloned(witness.published, copied.published)
                    && cloned(witness.client, copied.client),
                (None, None) => true,
                _ => false,
            },
    {
        OperationSeals {
            operation: self.operation.clone(),
            defined_seals: self.defined_seals.clone(),
            witness: match &self.witness {
                Some(witness) => Some(witness.clone()),
                None => None,
            },
        }
    }
}

/// Provider which reads an operation and its seals from a consignment stream.
pub trait ReadOperation: Sized {
    /// Seal type used by operations.
    type Seal: RgbSeal;

    /// The reason for which a read fails.
    type Error;

    /// What is still to be read: each block, with the id of its operation which the reader has
    /// computed, or the error in its place.
    open spec fn pending(&self) -> Seq<Result<(Opid, OperationSeals<Self::Seal>), Self::Error>> {
        arbitrary()
    }

    /// Reads an operation and its seals from a consignment stream.
    fn read_operation(&mut self) -> (read: Result<
        Option<OperationSeals<Self::Seal>>,
        Self::Error,
    >)
        ensures
            match read {
                Ok(None) => old(self).pending().len() == 0,
                Ok(Some(block)) => old(self).pending().len() > 0 && (old(self).pending()[0] matches Ok(
                    next,
                ) && next.1 == block),
                Err(error) => old(self).pending().len() > 0 && (old(self).pending()[0] matches Err(
                    next,
                ) && next == error),
            },
            old(self).pending().len() > 0 ==> final(self).pending()
                == old(self).pending().drop_first(),
    ;

    /// Reads an operation together with its id, allowing a reader that already computed the
    /// commitment during decoding to hand it over. Unless overridden, computes the id.
    ///
    /// The returned id must be the reader's own hash of the very operation it returns; see
    /// [`honest`]. That is not taken for granted here: the verification recomputes the id and
    /// compares where it is told to, and always recomputes it for genesis (whose contract id is
    /// rewritten during verification).
    fn read_operation_with_opid(&mut self) -> (read: Result<
        Option<(Opid, OperationSeals<Self::Seal>)>,
        Self::Error,
    >)
        ensures
            match read {
                Ok(None) => old(self).pending().len() == 0,
                Ok(Some((opid, block))) => old(self).pending().len() > 0 && (
                old(self).pending()[0] matches Ok(next) && next.1 == block && (opid == next.0 || opid
                    == crate::operation::operation_commitment(block.operation@))),
                Err(error) => old(self).pending().len() > 0 && (old(self).pending()[0] matches Err(
                    next,
                ) && next == error),
            },
            old(self).pending().len() > 0 ==> final(self).pending()
                == old(self).pending().drop_first(),
        default_ensures
            read matches Ok(Some((opid, block))) ==> opid
                == crate::operation::operation_commitment(block.operation@),
    {
        match self.read_operation() {
            Ok(read) => Ok(with_computed_opid(read)),
            Err(error) => Err(error),
        }
    }
}

/// Puts the computed id of its operation next to a block which has been read.
pub fn with_computed_opid<Seal: RgbSeal>(read: Option<OperationSeals<Seal>>) -> (identified: Option<
    (Opid, OperationSeals<Seal>),
>)
    ensures
        identified == (match read {
            Some(block) => Some(
                (crate::operation::operation_commitment(block.operation@), block),
            ),
            None => None,
        }),
{
    match read {
        Some(block) => {
            let opid = block.operation.opid();
            Some((opid, block))
        },
        None => None,
    }
}

/// Whether each id which comes from a reader is the commitment to the very operation it comes
/// with.
pub open spec fn honest<Seal: RgbSeal, ReadError>(
    pending: Seq<Result<(Opid, OperationSeals<Seal>), ReadError>>,
) -> bool {
    forall|i: int|
        0 <= i < pending.len() ==> (#[trigger] pending[i] matches Ok((opid, block)) ==> opid
            == crate::operation::operation_commitment(block.operation@))
}

/// A call which a verification makes to change a contract.
#[verifier::ext_equal]
pub enum ContractCall<Seal: RgbSeal> {
    /// [`ContractApi::apply_operation`], with the id and the operation.
    ApplyOperation(Opid, OperationView),
    /// [`ContractApi::stage_known_operation`].
    StageKnownOperation(Opid, OperationView),
    /// [`ContractApi::apply_seals`].
    ApplySeals(Opid, Map<u16, Seal::Definition>),
    /// [`ContractApi::apply_witness`].
    ApplyWitness(Opid, SealWitness<Seal>),
}

/// A question which a verification puts to a contract, with the answer.
#[verifier::ext_equal]
pub enum Question<Seal: RgbSeal> {
    /// [`ContractApi::is_witness_known`].
    WitnessKnown(Opid, SealWitness<Seal>, bool),
    /// [`ContractApi::are_seals_known`].
    SealsKnown(Opid, Map<u16, Seal::Definition>, bool),
    /// [`ContractApi::known_seal`].
    KnownSeal(CellAddress, Option<Seal>),
}

/// A part of a contract which a verification consults.
pub enum Consulted {
    /// [`ContractApi::contract_id`].
    ContractId,
    /// [`ContractApi::codex`].
    Codex,
    /// [`ContractApi::repo`].
    Repo,
    /// [`ContractApi::memory`].
    Memory,
}

/// Whether a witness has been applied for an operation.
pub open spec fn witness_applied<Seal: RgbSeal>(
    history: Seq<ContractCall<Seal>>,
    opid: Opid,
    witness: SealWitness<Seal>,
) -> bool {
    history.contains(ContractCall::ApplyWitness(opid, witness))
}

/// Whether a seal definition has been applied for an output of an operation.
pub open spec fn definition_applied<Seal: RgbSeal>(
    history: Seq<ContractCall<Seal>>,
    addr: CellAddress,
    definition: Seal::Definition,
) -> bool {
    exists|k: int|
        0 <= k < history.len() && (#[trigger] history[k] matches ContractCall::ApplySeals(
            opid,
            seals,
        ) && opid == addr.opid && seals.contains_key(addr.pos) && seals[addr.pos] == definition)
}

/// Whether each of some seal definitions has been applied for the same output of an operation.
pub open spec fn definitions_applied<Seal: RgbSeal>(
    history: Seq<ContractCall<Seal>>,
    opid: Opid,
    seals: Map<u16, Seal::Definition>,
) -> bool {
    forall|pos: u16| #[trigger]
        seals.contains_key(pos) ==> definition_applied(
            history,
            CellAddress { opid, pos },
            seals[pos],
        )
}

/// Whether a seal is the one of a definition which has been applied for a cell: told by the
/// definition itself, else resolved with a witness which has been applied for the operation.
pub open spec fn seal_applied<Seal: RgbSeal>(
    history: Seq<ContractCall<Seal>>,
    addr: CellAddress,
    seal: Seal,
) -> bool {
    exists|definition: Seal::Definition| #[trigger]
        definition_applied(history, addr, definition) && match definition.src() {
            Some(src) => src == seal,
            None => exists|witness: SealWitness<Seal>| #[trigger]
                witness_applied(history, addr.opid, witness) && seal == definition.resolved(
                    Seal::publication(witness.published),
                ),
        }
}

/// Whether an operation which is applied defines a destructible cell.
pub open spec fn cell_applied<Seal: RgbSeal>(
    applied: Seq<ContractCall<Seal>>,
    addr: CellAddress,
) -> bool {
    exists|k: int|
        0 <= k < applied.len() && (#[trigger] applied[k] matches ContractCall::ApplyOperation(
            opid,
            operation,
        ) && opid == addr.opid && addr.pos < operation.destructible_out.len())
}

/// Whether the cells which are spendable after some calls were so before or are defined by an
/// operation which is applied.
pub open spec fn spendable_by<Seal: RgbSeal>(
    before: Set<CellAddress>,
    applied: Seq<ContractCall<Seal>>,
    after: Set<CellAddress>,
) -> bool {
    forall|addr: CellAddress| #[trigger]
        after.contains(addr) ==> before.contains(addr) || cell_applied(applied, addr)
}

/// API exposed by the contract required for evaluating and verifying the contract state.
///
/// The contract keeps, as a specification, the history of what has been applied to it. A question
/// leaves the history as it is, and so the state and the rules of the contract, whatever it does to
/// answer it. The id, the codex and the libraries stay the same all along. Only an operation which
/// is applied makes cells spendable, those which it defines.
///
/// NB: `apply_operation` is called only after `apply_witness`.
pub trait ContractApi<Seal: RgbSeal>: Sized {
    /// The contract state cells.
    type Memory: Memory;

    /// The script libraries.
    type Repo: LibRepo;

    /// What has been applied to the contract so far: the calls of [`Self::apply_operation`],
    /// [`Self::apply_seals`] and [`Self::apply_witness`].
    open spec fn history(&self) -> Seq<ContractCall<Seal>> {
        arbitrary()
    }

    /// What [`Self::contract_id`] returns.
    open spec fn id(&self) -> ContractId {
        arbitrary()
    }

    /// What [`Self::codex`] returns.
    open spec fn rules(&self) -> ultrasonic::Codex {
        arbitrary()
    }

    /// What [`Self::is_known`] returns.
    open spec fn knows(&self, opid: Opid) -> bool {
        arbitrary()
    }

    /// What [`Self::memory`] returns.
    open spec fn cells(&self) -> Self::Memory {
        arbitrary()
    }

    /// What [`Self::repo`] returns.
    open spec fn libraries(&self) -> Self::Repo {
        arbitrary()
    }

    /// The cells which can be spent when no verification goes on.
    open spec fn spendable(&self) -> Set<CellAddress> {
        arbitrary()
    }

    /// Returns contract id for the processed contract.
    ///
    /// Called only once during the verification.
    fn contract_id(&self) -> (id: ContractId)
        ensures
            id == self.id(),
    ;

    /// Returns a codex against which the contract must be verified.
    ///
    /// Called only once during the operation verification.
    fn codex(&self) -> (codex: &ultrasonic::Codex)
        ensures
            *codex == self.rules(),
    ;

    /// Returns repository providing script libraries used during the verification.
    ///
    /// Called only once during the operation verification.
    fn repo(&self) -> (repo: &Self::Repo)
        ensures
            *repo == self.libraries(),
    ;

    /// Returns a memory implementation providing read access to all the contract state cells,
    /// including immutable and destructible memory.
    fn memory(&self) -> (memory: &Self::Memory)
        ensures
            *memory == self.cells(),
    ;

    /// Detects whether an operation with a given id is already known as a _valid_ operation for
    /// the ledger.
    ///
    /// The method MUST return `true` for genesis operation.
    fn is_known(&self, opid: Opid) -> (known: bool)
        ensures
            known == self.knows(opid),
    ;

    /// Detects whether a witness for a known operation is already stored and validated.
    ///
    /// Implementations may return `true` only when the exact witness has already been accepted
    /// for `opid`. Returning `false` preserves the default full verification path.
    fn is_witness_known(&mut self, opid: Opid, witness: &SealWitness<Seal>) -> (known: bool)
        ensures
            known ==> witness_applied(old(self).history(), opid, *witness),
            final(self).history() == old(self).history(),
            final(self).id() == old(self).id(),
            final(self).rules() == old(self).rules(),
            final(self).libraries() == old(self).libraries(),
            final(self).cells() == old(self).cells(),
            final(self).spendable() == old(self).spendable(),
        default_ensures
            !known,
            *final(self) == *old(self),
    {
        false
    }

    /// Returns a previously verified resolved seal for a known state cell.
    ///
    /// This is only used when a consignment intentionally omits already-known ancestor operations.
    /// Returning `None` preserves the default full-history verification path.
    fn known_seal(&mut self, addr: CellAddress) -> (seal: Option<Seal>)
        ensures
            seal matches Some(seal) ==> seal_applied(old(self).history(), addr, seal),
            final(self).history() == old(self).history(),
            final(self).id() == old(self).id(),
            final(self).rules() == old(self).rules(),
            final(self).libraries() == old(self).libraries(),
            final(self).cells() == old(self).cells(),
            final(self).spendable() == old(self).spendable(),
        default_ensures
            seal is None,
            *final(self) == *old(self),
    {
        None
    }

    /// Detects whether the provided seal definitions are already stored for a known operation.
    ///
    /// Implementations may return `true` only when every provided definition exactly matches
    /// previously accepted data. Returning `false` preserves the default full-history path.
    fn are_seals_known(
        &mut self,
        opid: Opid,
        seals: &DefinedSeals<Seal::Definition>,
    ) -> (known: bool)
        ensures
            known ==> definitions_applied(old(self).history(), opid, seals@),
            final(self).history() == old(self).history(),
            final(self).id() == old(self).id(),
            final(self).rules() == old(self).rules(),
            final(self).libraries() == old(self).libraries(),
            final(self).cells() == old(self).cells(),
            final(self).spendable() == old(self).spendable(),
        default_ensures
            !known,
            *final(self) == *old(self),
    {
        false
    }

    /// # Nota bene:
    ///
    /// The method is called only for those operations which are not known (i.e.
    /// [`Self::is_known`] returns `false` for the operation id).
    ///
    /// The method is NOT called for the genesis operation.
    fn apply_operation(&mut self, operation: VerifiedOperation)
        ensures
            final(self).history() == old(self).history().push(
                ContractCall::ApplyOperation(operation.id(), operation@),
            ),
            final(self).id() == old(self).id(),
            final(self).rules() == old(self).rules(),
            final(self).libraries() == old(self).libraries(),
            spendable_by(
                old(self).spendable(),
                seq![ContractCall::<Seal>::ApplyOperation(operation.id(), operation@)],
                final(self).spendable(),
            ),
    ;

    /// Stages outputs from a fully-known operation so later operations in the same consignment can
    /// read already-validated state without re-running operation verification.
    ///
    /// Implementations must treat this as verification-local state. It must not make an already
    /// spent state cell spendable again after the consume finishes.
    fn stage_known_operation(&mut self, opid: Opid, operation: &ContractOperation)
        ensures
            final(self).history() == old(self).history(),
            final(self).id() == old(self).id(),
            final(self).rules() == old(self).rules(),
            final(self).libraries() == old(self).libraries(),
            final(self).spendable() == old(self).spendable(),
        default_ensures
            *final(self) == *old(self),
    {
    }

    /// # Nota bene:
    ///
    /// The method is called for all operations, including known ones, for which the consignment
    /// provides at least single seal definition information (thus, it may be called for the
    /// genesis operation as well).
    fn apply_seals(&mut self, opid: Opid, seals: DefinedSeals<Seal::Definition>)
        ensures
            final(self).history() == old(self).history().push(
                ContractCall::ApplySeals(opid, seals@),
            ),
            final(self).id() == old(self).id(),
            final(self).rules() == old(self).rules(),
            final(self).libraries() == old(self).libraries(),
            final(self).spendable() == old(self).spendable(),
    ;

    /// # Nota bene:
    ///
    /// The method is called for all operations, including known ones, which have a witness (i.e.,
    /// except genesis or operations with no destroyed state).
    fn apply_witness(&mut self, opid: Opid, witness: SealWitness<Seal>)
        ensures
            final(self).history() == old(self).history().push(
                ContractCall::ApplyWitness(opid, witness),
            ),
            final(self).id() == old(self).id(),
            final(self).rules() == old(self).rules(),
            final(self).libraries() == old(self).libraries(),
            final(self).spendable() == old(self).spendable(),
    ;
}

} // verus!
