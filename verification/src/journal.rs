//! The record of what passes between a verification and a contract.
//!
//! A verification reads its blocks, puts its questions to the contract and makes its calls by the
//! methods of the journal, each of which does the one thing and keeps it as a specification. Nothing
//! else writes to the journal.
use vstd::prelude::*;

use crate::api::{Consulted, ContractApi, ContractCall, OperationSeals, Question, ReadOperation};
use crate::codex::VerifiedOperation;
use crate::ids::{CellAddress, ContractId, Opid};
use crate::model::Step;
use crate::operation::ContractOperation;
use crate::seals::{DefinedSeals, RgbSeal, SealWitness};

verus! {

/// What has passed between a verification and a contract.
#[verifier::ext_equal]
pub struct Record<Seal: RgbSeal> {
    /// The operation ids which have come from the reader.
    pub ids: Seq<Opid>,
    /// The questions which have been put, with the answers.
    pub asked: Seq<Question<Seal>>,
    /// The parts of the contract which have been consulted.
    pub consulted: Seq<Consulted>,
    /// The calls which have been made to change the contract.
    pub calls: Seq<ContractCall<Seal>>,
}

impl<Seal: RgbSeal> Record<Seal> {
    /// The record in which a verification starts.
    pub open spec fn empty() -> Record<Seal> {
        Record { ids: seq![], asked: seq![], consulted: seq![], calls: seq![] }
    }

    /// The record with one more id from the reader.
    pub open spec fn id(self, opid: Opid) -> Record<Seal> {
        Record { ids: self.ids.push(opid), ..self }
    }

    /// The record with one more question.
    pub open spec fn ask(self, question: Question<Seal>) -> Record<Seal> {
        Record { asked: self.asked.push(question), ..self }
    }

    /// The record with one more part consulted.
    pub open spec fn consult(self, part: Consulted) -> Record<Seal> {
        Record { consulted: self.consulted.push(part), ..self }
    }

    /// The record with one more call.
    pub open spec fn call(self, call: ContractCall<Seal>) -> Record<Seal> {
        Record { calls: self.calls.push(call), ..self }
    }

    /// The record with the questions and the calls of one more block.
    pub open spec fn block<ReadError>(self, step: Step<Seal, ReadError>) -> Record<Seal> {
        Record {
            asked: self.asked + step.questions,
            consulted: self.consulted + step.consulted,
            calls: self.calls + step.calls,
            ..self
        }
    }
}

/// The journal of a verification.
pub struct Journal<Seal: RgbSeal> {
    record: Ghost<Record<Seal>>,
}

impl<Seal: RgbSeal> View for Journal<Seal> {
    type V = Record<Seal>;

    closed spec fn view(&self) -> Record<Seal> {
        self.record@
    }
}

impl<Seal: RgbSeal> Journal<Seal> {
    /// Starts a journal.
    pub fn new() -> (journal: Self)
        ensures
            journal@ == Record::<Seal>::empty(),
    {
        Journal { record: Ghost(Record::empty()) }
    }

    /// Reads a block with the id of its operation, by
    /// [`ReadOperation::read_operation_with_opid`].
    pub fn read<R: ReadOperation<Seal = Seal>>(&mut self, reader: &mut R) -> (read: Result<
        Option<(Opid, OperationSeals<Seal>)>,
        R::Error,
    >)
        ensures
            match read {
                Ok(None) => old(reader).pending().len() == 0,
                Ok(Some((opid, block))) => old(reader).pending().len() > 0 && (
                old(reader).pending()[0] matches Ok(next) && next.1 == block && (opid == next.0
                    || opid == crate::operation::operation_commitment(block.operation@))),
                Err(error) => old(reader).pending().len() > 0 && (
                old(reader).pending()[0] matches Err(next) && next == error),
            },
            old(reader).pending().len() > 0 ==> final(reader).pending()
                == old(reader).pending().drop_first(),
            final(self)@ == (match read {
                Ok(Some((opid, _))) => old(self)@.id(opid),
                _ => old(self)@,
            }),
    {
        let read = reader.read_operation_with_opid();
        if let Ok(Some((opid, _))) = &read {
            self.record = Ghost(self.record@.id(*opid));
        }
        read
    }

    /// Consults [`ContractApi::contract_id`].
    pub fn contract_id<C: ContractApi<Seal>>(&mut self, contract: &C) -> (id: ContractId)
        ensures
            final(self)@ == old(self)@.consult(Consulted::ContractId),
            id == contract.id(),
    {
        self.record = Ghost(self.record@.consult(Consulted::ContractId));
        contract.contract_id()
    }

    /// Consults [`ContractApi::codex`].
    pub fn codex<'c, C: ContractApi<Seal>>(&mut self, contract: &'c C) -> (codex: &'c ultrasonic::Codex)
        ensures
            final(self)@ == old(self)@.consult(Consulted::Codex),
            *codex == contract.rules(),
    {
        self.record = Ghost(self.record@.consult(Consulted::Codex));
        contract.codex()
    }

    /// Consults [`ContractApi::repo`].
    pub fn repo<'c, C: ContractApi<Seal>>(&mut self, contract: &'c C) -> (repo: &'c C::Repo)
        ensures
            final(self)@ == old(self)@.consult(Consulted::Repo),
            *repo == contract.libraries(),
    {
        self.record = Ghost(self.record@.consult(Consulted::Repo));
        contract.repo()
    }

    /// Consults [`ContractApi::memory`].
    pub fn memory<'c, C: ContractApi<Seal>>(&mut self, contract: &'c C) -> (memory: &'c C::Memory)
        ensures
            final(self)@ == old(self)@.consult(Consulted::Memory),
            *memory == contract.cells(),
    {
        self.record = Ghost(self.record@.consult(Consulted::Memory));
        contract.memory()
    }

    /// Puts the question [`ContractApi::is_witness_known`].
    pub fn is_witness_known<C: ContractApi<Seal>>(
        &mut self,
        contract: &mut C,
        opid: Opid,
        witness: &SealWitness<Seal>,
    ) -> (known: bool)
        ensures
            final(self)@ == old(self)@.ask(Question::WitnessKnown(opid, *witness, known)),
            known ==> crate::api::witness_applied(old(contract).history(), opid, *witness),
            final(contract).history() == old(contract).history(),
            final(contract).id() == old(contract).id(),
            final(contract).rules() == old(contract).rules(),
            final(contract).libraries() == old(contract).libraries(),
            final(contract).cells() == old(contract).cells(),
            final(contract).spendable() == old(contract).spendable(),
    {
        let known = contract.is_witness_known(opid, witness);
        self.record = Ghost(self.record@.ask(Question::WitnessKnown(opid, *witness, known)));
        known
    }

    /// Puts the question [`ContractApi::are_seals_known`].
    pub fn are_seals_known<C: ContractApi<Seal>>(
        &mut self,
        contract: &mut C,
        opid: Opid,
        seals: &DefinedSeals<Seal::Definition>,
    ) -> (known: bool)
        ensures
            final(self)@ == old(self)@.ask(Question::SealsKnown(opid, seals@, known)),
            known ==> crate::api::definitions_applied(old(contract).history(), opid, seals@),
            final(contract).history() == old(contract).history(),
            final(contract).id() == old(contract).id(),
            final(contract).rules() == old(contract).rules(),
            final(contract).libraries() == old(contract).libraries(),
            final(contract).cells() == old(contract).cells(),
            final(contract).spendable() == old(contract).spendable(),
    {
        let known = contract.are_seals_known(opid, seals);
        self.record = Ghost(self.record@.ask(Question::SealsKnown(opid, seals@, known)));
        known
    }

    /// Puts the question [`ContractApi::known_seal`].
    pub fn known_seal<C: ContractApi<Seal>>(
        &mut self,
        contract: &mut C,
        addr: CellAddress,
    ) -> (known: Option<Seal>)
        ensures
            final(self)@ == old(self)@.ask(Question::KnownSeal(addr, known)),
            known matches Some(seal) ==> crate::api::seal_applied(
                old(contract).history(),
                addr,
                seal,
            ),
            final(contract).history() == old(contract).history(),
            final(contract).id() == old(contract).id(),
            final(contract).rules() == old(contract).rules(),
            final(contract).libraries() == old(contract).libraries(),
            final(contract).cells() == old(contract).cells(),
            final(contract).spendable() == old(contract).spendable(),
    {
        let known = contract.known_seal(addr);
        self.record = Ghost(self.record@.ask(Question::KnownSeal(addr, known)));
        known
    }

    /// Makes the call [`ContractApi::apply_operation`].
    pub fn apply_operation<C: ContractApi<Seal>>(
        &mut self,
        contract: &mut C,
        operation: VerifiedOperation,
    )
        ensures
            final(self)@ == old(self)@.call(ContractCall::ApplyOperation(operation.id(), operation@)),
            final(contract).history() == old(contract).history().push(
                ContractCall::ApplyOperation(operation.id(), operation@),
            ),
            crate::api::spendable_by(
                old(contract).spendable(),
                seq![ContractCall::<Seal>::ApplyOperation(operation.id(), operation@)],
                final(contract).spendable(),
            ),
            final(contract).id() == old(contract).id(),
            final(contract).rules() == old(contract).rules(),
            final(contract).libraries() == old(contract).libraries(),
    {
        self.record = Ghost(self.record@.call(ContractCall::ApplyOperation(operation.id(), operation@)));
        contract.apply_operation(operation);
    }

    /// Makes the call [`ContractApi::stage_known_operation`].
    pub fn stage_known_operation<C: ContractApi<Seal>>(
        &mut self,
        contract: &mut C,
        opid: Opid,
        operation: &ContractOperation,
    )
        ensures
            final(self)@ == old(self)@.call(ContractCall::StageKnownOperation(opid, operation@)),
            final(contract).history() == old(contract).history(),
            final(contract).spendable() == old(contract).spendable(),
            final(contract).id() == old(contract).id(),
            final(contract).rules() == old(contract).rules(),
            final(contract).libraries() == old(contract).libraries(),
    {
        self.record = Ghost(self.record@.call(ContractCall::StageKnownOperation(opid, operation@)));
        contract.stage_known_operation(opid, operation);
    }

    /// Makes the call [`ContractApi::apply_seals`].
    pub fn apply_seals<C: ContractApi<Seal>>(
        &mut self,
        contract: &mut C,
        opid: Opid,
        seals: DefinedSeals<Seal::Definition>,
    )
        ensures
            final(self)@ == old(self)@.call(ContractCall::ApplySeals(opid, seals@)),
            final(contract).history() == old(contract).history().push(
                ContractCall::ApplySeals(opid, seals@),
            ),
            final(contract).spendable() == old(contract).spendable(),
            final(contract).id() == old(contract).id(),
            final(contract).rules() == old(contract).rules(),
            final(contract).libraries() == old(contract).libraries(),
    {
        self.record = Ghost(self.record@.call(ContractCall::ApplySeals(opid, seals@)));
        contract.apply_seals(opid, seals);
    }

    /// Makes the call [`ContractApi::apply_witness`].
    pub fn apply_witness<C: ContractApi<Seal>>(
        &mut self,
        contract: &mut C,
        opid: Opid,
        witness: SealWitness<Seal>,
    )
        ensures
            final(self)@ == old(self)@.call(ContractCall::ApplyWitness(opid, witness)),
            final(contract).history() == old(contract).history().push(
                ContractCall::ApplyWitness(opid, witness),
            ),
            final(contract).spendable() == old(contract).spendable(),
            final(contract).id() == old(contract).id(),
            final(contract).rules() == old(contract).rules(),
            final(contract).libraries() == old(contract).libraries(),
    {
        self.record = Ghost(self.record@.call(ContractCall::ApplyWitness(opid, witness)));
        contract.apply_witness(opid, witness);
    }
}

} // verus!
