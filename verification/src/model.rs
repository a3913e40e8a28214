//! What the verification of one block of a consignment comes to.
//!
//! A block is refused or accepted by the seals which are open in the consignment, the block
//! itself and the answers of the contract; from those follow the error or the seals which are open
//! after it, and the calls which change the contract.
use vstd::prelude::*;

use crate::api::{BlockView, Consulted, ContractCall, Question};
use crate::codex::{CallFailure, Memory};
use crate::error::ErrorView;
use crate::ids::{AuthToken, CellAddress, CodexId, ContractId, Opid};
use crate::seals::{RgbSeal, RgbSealDef};

verus! {

/// What stays the same throughout a verification.
#[derive(Clone, Copy)]
pub struct Setting {
    /// The contract which is verified.
    pub contract_id: ContractId,
    /// The codex of the contract.
    pub codex_id: CodexId,
    /// Whether the ids which come from the reader are recomputed and compared.
    pub memo_check: bool,
}

/// What a verification carries from one block to the next.
#[verifier::ext_equal]
pub struct VerifierView<Seal: RgbSeal> {
    /// Whether the next block is the genesis.
    pub is_genesis: bool,
    /// The seals which are open, by the address of the cell they protect.
    pub seals: Map<CellAddress, Seal>,
}

/// What the contract and its codex answer while a block is verified. An answer to a question
/// which is not asked may be anything.
pub struct Answers<Seal: RgbSeal, M: Memory> {
    /// Whether the operation is known.
    pub known: bool,
    /// Whether the witness is known.
    pub witness_known: bool,
    /// Whether the seal definitions are known.
    pub seals_known: bool,
    /// The known seal of each input, by its number.
    pub known_seals: Seq<Option<Seal>>,
    /// The state against which the codex verifies the operation.
    pub memory: M,
    /// What the codex says of the operation.
    pub verdict: Result<Opid, CallFailure>,
}

/// What the verification of a block comes to.
#[verifier::ext_equal]
pub struct Step<Seal: RgbSeal, ReadError> {
    /// What is carried to the next block, or the error for which the block is refused.
    pub result: Result<VerifierView<Seal>, ErrorView<Seal, ReadError>>,
    /// The questions which are put to the contract, in order. They come before the calls.
    pub questions: Seq<Question<Seal>>,
    /// The parts of the contract which are consulted, in order. They are when the questions have
    /// been put and before the calls.
    pub consulted: Seq<Consulted>,
    /// The calls which change the contract, in order.
    pub calls: Seq<ContractCall<Seal>>,
    /// The calls of which an effect stays when the verification is over: all but the staging.
    pub applied: Seq<ContractCall<Seal>>,
}

impl<Seal: RgbSeal> BlockView<Seal> {
    /// The block with the contract id put into a genesis, which cannot commit to it.
    pub open spec fn for_contract(self, setting: Setting, is_genesis: bool) -> BlockView<Seal> {
        if is_genesis {
            BlockView { operation: self.operation.with_contract(setting.contract_id), ..self }
        } else {
            self
        }
    }

    /// The id of the operation, or the error for which there is none. That of a genesis is
    /// computed after the contract id is put into it; any other comes from the reader.
    pub open spec fn identity<ReadError>(
        self,
        setting: Setting,
        is_genesis: bool,
        memo_opid: Opid,
    ) -> Result<Opid, ErrorView<Seal, ReadError>> {
        let computed = crate::operation::operation_commitment(
            self.for_contract(setting, is_genesis).operation,
        );
        if is_genesis {
            if self.operation.contract_id.same_bytes(setting.codex_id) {
                Ok(computed)
            } else {
                Err(ErrorView::NoCodexCommitment)
            }
        } else if setting.memo_check && computed != memo_opid {
            Err(ErrorView::OpidMemoMismatch { memoized: memo_opid, recomputed: computed })
        } else {
            Ok(memo_opid)
        }
    }

    /// Whether the operation and its witness have already been accepted.
    pub open spec fn witness_accepted<M: Memory>(self, answers: Answers<Seal, M>) -> bool {
        answers.known && self.witness is Some && answers.witness_known
    }

    /// Whether all that the block says of the operation has already been accepted.
    pub open spec fn fully_known<M: Memory>(self, answers: Answers<Seal, M>) -> bool {
        self.witness_accepted(answers) && answers.seals_known
    }

    /// Whether each seal definition is for a destructible cell which the operation defines, and
    /// the token of the cell commits to it.
    pub open spec fn definitions_match(self) -> bool {
        forall|pos: u16| #[trigger]
            self.defined_seals.contains_key(pos) ==> pos < self.operation.destructible_out.len()
                && self.operation.destructible_out[pos as int].auth
                == self.defined_seals[pos].token()
    }

    /// The tokens of the reported seals.
    pub open spec fn reported_tokens(self) -> Set<AuthToken> {
        Set::new(
            |token: AuthToken| exists|pos: u16| #[trigger]
                self.defined_seals.contains_key(pos) && self.defined_seals[pos].token() == token,
        )
    }

    /// The error of a block whose seal definitions do not match.
    pub open spec fn mismatch<ReadError>(self, opid: Opid) -> ErrorView<Seal, ReadError> {
        ErrorView::SealsDefinitionMismatch {
            opid,
            reported: self.reported_tokens(),
            defined: self.operation.tokens(),
            sources: self.defined_seals.map_values(|definition: Seal::Definition| definition.text()),
        }
    }

    /// Whether the seal of an input is open in the consignment and no input before it has taken it.
    pub open spec fn holds_seal(self, seals: Map<CellAddress, Seal>, i: int) -> bool {
        let inputs = self.operation.inputs();
        seals.contains_key(inputs[i]) && !inputs.take(i).contains(inputs[i])
    }

    /// The seal which an input closes: the one which is open in the consignment and which no
    /// input before it has taken; else the one which the contract knows.
    pub open spec fn claimed(
        self,
        seals: Map<CellAddress, Seal>,
        known_seals: Seq<Option<Seal>>,
        i: int,
    ) -> Option<Seal> {
        if self.holds_seal(seals, i) {
            Some(seals[self.operation.inputs()[i]])
        } else {
            known_seals[i]
        }
    }

    /// Whether an input is the first one whose seal is unknown.
    pub open spec fn first_unclaimed(
        self,
        seals: Map<CellAddress, Seal>,
        known_seals: Seq<Option<Seal>>,
        i: int,
    ) -> bool {
        &&& 0 <= i < self.operation.inputs().len()
        &&& self.claimed(seals, known_seals, i) is None
        &&& forall|j: int| 0 <= j < i ==> #[trigger] self.claimed(seals, known_seals, j) is Some
    }

    /// There is but one first input whose seal is unknown.
    pub proof fn lemma_first_unclaimed(
        self,
        seals: Map<CellAddress, Seal>,
        known_seals: Seq<Option<Seal>>,
        i: int,
    )
        requires
            self.first_unclaimed(seals, known_seals, i),
        ensures
            i == (choose|k: int| self.first_unclaimed(seals, known_seals, k)),
    {
        let k = choose|k: int| self.first_unclaimed(seals, known_seals, k);
        assert(self.first_unclaimed(seals, known_seals, k));
        assert(self.claimed(seals, known_seals, i) is None);
        assert(self.claimed(seals, known_seals, k) is None);
    }

    /// The seals which the inputs close, in order.
    pub open spec fn closed_seals(
        self,
        seals: Map<CellAddress, Seal>,
        known_seals: Seq<Option<Seal>>,
    ) -> Seq<Seal> {
        Seq::new(
            self.operation.inputs().len(),
            |i: int| self.claimed(seals, known_seals, i)->0,
        )
    }

    /// The seals which stay open when those of the inputs are taken.
    pub open spec fn remaining_seals(self, seals: Map<CellAddress, Seal>) -> Map<
        CellAddress,
        Seal,
    > {
        seals.remove_keys(self.operation.inputs().to_set())
    }

    /// The seal of a definition: told by the definition itself, else resolved with the witness.
    pub open spec fn defined_seal(self, pos: u16) -> Option<Seal> {
        match (self.defined_seals[pos].src(), self.witness) {
            (Some(seal), _) => Some(seal),
            (None, Some(witness)) => Some(
                self.defined_seals[pos].resolved(Seal::publication(witness.published)),
            ),
            (None, None) => None,
        }
    }

    /// Whether the block opens a seal for a cell.
    pub open spec fn opens(self, opid: Opid, addr: CellAddress) -> bool {
        addr.opid == opid && self.defined_seals.contains_key(addr.pos) && self.defined_seal(
            addr.pos,
        ) is Some
    }

    /// The seals which are open when those which the operation defines are added.
    pub open spec fn opened_seals(self, opid: Opid, seals: Map<CellAddress, Seal>) -> Map<
        CellAddress,
        Seal,
    > {
        Map::new(
            |addr: CellAddress| self.opens(opid, addr) || seals.contains_key(addr),
            |addr: CellAddress|
                if self.opens(opid, addr) {
                    self.defined_seal(addr.pos)->0
                } else {
                    seals[addr]
                },
        )
    }

    /// The error of a block whose closing of the seals does not hold.
    pub open spec fn closing_error<ReadError>(self, opid: Opid, closed: Seq<Seal>) -> Option<
        ErrorView<Seal, ReadError>,
    > {
        match self.witness {
            Some(witness) => match Seal::closing(witness.published, witness.client, closed, opid) {
                Ok(()) => None,
                Err(error) => Some(
                    ErrorView::SealsNotClosed(Seal::publication(witness.published), opid, error),
                ),
            },
            None => if closed.len() > 0 {
                Some(ErrorView::NoWitness(opid))
            } else {
                None
            },
        }
    }

    /// The error for which a block that is not fully known is refused: of its seal definitions,
    /// of the seals of its inputs, of the operation, or of the witness, whichever comes first.
    pub open spec fn refusal<M: Memory, ReadError>(
        self,
        opid: Opid,
        seals: Map<CellAddress, Seal>,
        answers: Answers<Seal, M>,
    ) -> Option<ErrorView<Seal, ReadError>> {
        let accepted = self.witness_accepted(answers);
        if !self.definitions_match() {
            Some(self.mismatch(opid))
        } else if !accepted && exists|i: int| self.first_unclaimed(seals, answers.known_seals, i) {
            let i = choose|i: int| self.first_unclaimed(seals, answers.known_seals, i);
            Some(ErrorView::SealUnknown(self.operation.inputs()[i]))
        } else if !answers.known && answers.verdict is Err {
            Some(ErrorView::Vm(answers.verdict->Err_0))
        } else if !accepted {
            self.closing_error(opid, self.closed_seals(seals, answers.known_seals))
        } else {
            None
        }
    }

    /// Whether the contract is asked for the seal of an input: the block gets so far, those of the
    /// inputs before are known, and the consignment doesn't have this one.
    pub open spec fn asks_seal<M: Memory>(
        self,
        seals: Map<CellAddress, Seal>,
        answers: Answers<Seal, M>,
        i: int,
    ) -> bool {
        &&& !self.witness_accepted(answers)
        &&& self.definitions_match()
        &&& 0 <= i < self.operation.inputs().len()
        &&& !self.holds_seal(seals, i)
        &&& forall|j: int|
            0 <= j < i ==> #[trigger] self.claimed(seals, answers.known_seals, j) is Some
    }

    /// The questions whether the witness and the seal definitions are known: each is put only if
    /// what comes before it is known.
    pub open spec fn known_questions<M: Memory>(self, opid: Opid, answers: Answers<Seal, M>) -> Seq<
        Question<Seal>,
    > {
        match self.witness {
            Some(witness) if answers.known => {
                let asked = seq![Question::WitnessKnown(opid, witness, answers.witness_known)];
                if answers.witness_known {
                    asked.push(Question::SealsKnown(opid, self.defined_seals, answers.seals_known))
                } else {
                    asked
                }
            },
            _ => seq![],
        }
    }

    /// The questions for the seals of the first `n` inputs, those which the consignment has left
    /// out.
    pub open spec fn seal_questions(
        self,
        seals: Map<CellAddress, Seal>,
        known_seals: Seq<Option<Seal>>,
        n: nat,
    ) -> Seq<Question<Seal>>
        decreases n,
    {
        if n == 0 {
            seq![]
        } else {
            let i = n - 1;
            let asked = self.seal_questions(seals, known_seals, i as nat);
            if self.holds_seal(seals, i) {
                asked
            } else {
                asked.push(Question::KnownSeal(self.operation.inputs()[i], known_seals[i]))
            }
        }
    }

    /// The questions for seals depend on the answers to them alone.
    pub proof fn lemma_seal_questions(
        self,
        seals: Map<CellAddress, Seal>,
        known_seals: Seq<Option<Seal>>,
        other: Seq<Option<Seal>>,
        n: nat,
    )
        requires
            forall|i: int| 0 <= i < n ==> known_seals[i] == other[i],
        ensures
            self.seal_questions(seals, known_seals, n) == self.seal_questions(seals, other, n),
        decreases n,
    {
        if n > 0 {
            self.lemma_seal_questions(seals, known_seals, other, (n - 1) as nat);
        }
    }

    /// The number of the inputs whose seals are looked up: all, or those up to the first one whose
    /// seal is unknown.
    pub open spec fn looked_up(
        self,
        seals: Map<CellAddress, Seal>,
        known_seals: Seq<Option<Seal>>,
    ) -> nat {
        if exists|i: int| self.first_unclaimed(seals, known_seals, i) {
            ((choose|i: int| self.first_unclaimed(seals, known_seals, i)) + 1) as nat
        } else {
            self.operation.inputs().len()
        }
    }

    /// All the questions which are put to the contract.
    pub open spec fn questions<M: Memory>(
        self,
        opid: Opid,
        seals: Map<CellAddress, Seal>,
        answers: Answers<Seal, M>,
    ) -> Seq<Question<Seal>> {
        if self.witness_accepted(answers) || !self.definitions_match() {
            self.known_questions(opid, answers)
        } else {
            self.known_questions(opid, answers) + self.seal_questions(
                seals,
                answers.known_seals,
                self.looked_up(seals, answers.known_seals),
            )
        }
    }

    /// Whether the codex is asked to verify the operation: it is not known, and the seal
    /// definitions and the seals of the inputs are in order.
    pub open spec fn asks_codex<M: Memory>(
        self,
        seals: Map<CellAddress, Seal>,
        answers: Answers<Seal, M>,
    ) -> bool {
        &&& !answers.known
        &&& self.definitions_match()
        &&& forall|i: int| !(#[trigger] self.first_unclaimed(seals, answers.known_seals, i))
    }

    /// The parts of the contract which are consulted: its state and its rules, each once, where the
    /// codex is asked.
    pub open spec fn consulted<M: Memory>(
        self,
        seals: Map<CellAddress, Seal>,
        answers: Answers<Seal, M>,
    ) -> Seq<Consulted> {
        if self.asks_codex(seals, answers) {
            seq![Consulted::Memory, Consulted::Codex, Consulted::Repo]
        } else {
            seq![]
        }
    }

    /// The call which hands over the witness, if there is one.
    pub open spec fn witness_calls(self, opid: Opid) -> Seq<ContractCall<Seal>> {
        match self.witness {
            Some(witness) => seq![ContractCall::ApplyWitness(opid, witness)],
            None => seq![],
        }
    }

    /// The call which hands over a verified operation, unless it is known or the genesis.
    pub open spec fn operation_calls<M: Memory>(
        self,
        is_genesis: bool,
        answers: Answers<Seal, M>,
    ) -> Seq<ContractCall<Seal>> {
        if !is_genesis && !answers.known && answers.verdict is Ok {
            seq![ContractCall::ApplyOperation(answers.verdict->Ok_0, self.operation)]
        } else {
            seq![]
        }
    }

    /// The call which hands over the seal definitions, if there are any.
    pub open spec fn seal_calls(self, opid: Opid) -> Seq<ContractCall<Seal>> {
        if self.defined_seals == Map::<u16, Seal::Definition>::empty() {
            seq![]
        } else {
            seq![ContractCall::ApplySeals(opid, self.defined_seals)]
        }
    }

    /// The call which stages a fully known operation, unless it is the genesis.
    pub open spec fn stage_calls(self, is_genesis: bool, opid: Opid) -> Seq<ContractCall<Seal>> {
        if is_genesis {
            seq![]
        } else {
            seq![ContractCall::StageKnownOperation(opid, self.operation)]
        }
    }
}

impl<Seal: RgbSeal> VerifierView<Seal> {
    /// The state in which a verification starts.
    pub open spec fn initial() -> VerifierView<Seal> {
        VerifierView { is_genesis: true, seals: Map::empty() }
    }

    /// What the verification of a block comes to, once the operation is identified and the
    /// contract id is put into it.
    pub open spec fn step_identified<M: Memory, ReadError>(
        self,
        block: BlockView<Seal>,
        opid: Opid,
        answers: Answers<Seal, M>,
    ) -> Step<Seal, ReadError> {
        let remaining = block.remaining_seals(self.seals);
        let questions = block.questions(opid, self.seals, answers);
        let consulted = block.consulted(self.seals, answers);
        let witness_calls = block.witness_calls(opid);
        let seal_calls = block.seal_calls(opid);
        if block.fully_known(answers) {
            Step {
                result: Ok(VerifierView { is_genesis: self.is_genesis, seals: remaining }),
                questions,
                consulted,
                calls: witness_calls + block.stage_calls(self.is_genesis, opid) + seal_calls,
                applied: witness_calls + seal_calls,
            }
        } else {
            match block.refusal::<M, ReadError>(opid, self.seals, answers) {
                Some(error) => Step {
                    result: Err(error),
                    questions,
                    consulted,
                    calls: seq![],
                    applied: seq![],
                },
                None => {
                    let calls = witness_calls + block.operation_calls(self.is_genesis, answers)
                        + seal_calls;
                    let opened = block.opened_seals(opid, remaining);
                    Step {
                        result: Ok(VerifierView { is_genesis: false, seals: opened }),
                        questions,
                        consulted,
                        calls,
                        applied: calls,
                    }
                },
            }
        }
    }

    /// What the verification of a block comes to.
    pub open spec fn step<M: Memory, ReadError>(
        self,
        setting: Setting,
        block: BlockView<Seal>,
        memo_opid: Opid,
        answers: Answers<Seal, M>,
    ) -> Step<Seal, ReadError> {
        match block.identity::<ReadError>(setting, self.is_genesis, memo_opid) {
            Err(error) => Step {
                result: Err(error),
                questions: seq![],
                consulted: seq![],
                calls: seq![],
                applied: seq![],
            },
            Ok(opid) => self.step_identified(
                block.for_contract(setting, self.is_genesis),
                opid,
                answers,
            ),
        }
    }
}

} // verus!
