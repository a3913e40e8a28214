//! Main implementation of the contract verification procedure.
use std::collections::{BTreeMap, BTreeSet};

use vstd::prelude::*;

use crate::api::{BlockView, Consulted, ContractApi, OperationSeals, Question, ReadOperation};
use crate::codex::{codex_id, verify_operation};
use crate::error::{ErrorView, VerificationError};
use crate::ids::{CellAddress, ContractId, Opid};
use crate::journal::{Journal, Record};
use crate::model::{Answers, Setting, Step, VerifierView};
use crate::operation::{Input, OperationView};
use crate::seal_map::SealMap;
use crate::seals::{DefinedSeals, RgbSeal, RgbSealDef, SealWitness};

verus! {

broadcast use vstd::laws_cmp::group_laws_cmp;

impl<Seal: RgbSeal> OperationSeals<Seal> {
    /// Identifies the operation of a block, putting the contract id into a genesis.
    ///
    /// Genesis cannot commit to the contract id since the contract does not exist yet; it commits
    /// to the codex id in its place, and its id is computed after the contract id is put there.
    /// The id of any other operation is the one which came from the reader.
    pub fn identify<ReadError>(
        &mut self,
        setting: Setting,
        is_genesis: bool,
        memo_opid: Opid,
    ) -> (identified: Result<Opid, VerificationError<Seal, ReadError>>)
        ensures
            match (identified, old(self)@.identity::<ReadError>(setting, is_genesis, memo_opid)) {
                (Ok(opid), Ok(identity)) => opid == identity && final(self)@ == old(
                    self,
                )@.for_contract(setting, is_genesis),
                (Err(error), Err(view)) => error@ == view && final(self)@ == old(self)@,
                _ => false,
            },
    {
        if is_genesis {
            if !self.operation.contract_id().is_codex_id(setting.codex_id) {
                return Err(VerificationError::NoCodexCommitment);
            }
            self.operation.set_contract_id(setting.contract_id);
            Ok(self.operation.opid())
        } else {
            if setting.memo_check {
                let recomputed = self.operation.opid();
                if recomputed != memo_opid {
                    return Err(
                        VerificationError::OpidMemoMismatch { memoized: memo_opid, recomputed },
                    );
                }
            }
            Ok(memo_opid)
        }
    }

    /// Tells whether each seal definition strictly matches a destructible cell which the operation
    /// defines.
    ///
    /// There may be less definitions than cells, since some seals might be unknown: the token of
    /// the cell is known but its definition is not.
    pub fn definitions_match(&self) -> (matching: bool)
        ensures
            matching == self@.definitions_match(),
    {
        let entries = self.defined_seals.entries();
        let cells = &self.operation.parts().destructible_out;
        let mut matching: bool = true;
        let mut i: usize = 0;
        while i < entries.len()
            invariant
                i <= entries.len(),
                cells@ == self@.operation.destructible_out,
                matching <==> forall|j: int|
                    0 <= j < i ==> (#[trigger] entries@[j]).0 < cells@.len()
                        && cells@[entries@[j].0 as int].auth == entries@[j].1.token(),
            decreases entries.len() - i,
        {
            let (pos, definition) = &entries[i];
            let pos: usize = *pos as usize;
            if pos >= cells.len() || cells[pos].auth != definition.auth_token() {
                matching = false;
            }
            i = i + 1;
        }
        proof {
            if matching {
                assert forall|pos: u16| #[trigger] self@.defined_seals.contains_key(pos) implies pos
                    < cells@.len() && cells@[pos as int].auth
                    == self@.defined_seals[pos].token() by {
                    let j = choose|j: int| 0 <= j < entries@.len() && (#[trigger] entries@[j]).0 == pos;
                }
            } else {
                let j = choose|j: int|
                    0 <= j < entries@.len() && !((#[trigger] entries@[j]).0 < cells@.len()
                        && cells@[entries@[j].0 as int].auth == entries@[j].1.token());
                assert(self@.defined_seals.contains_key(entries@[j].0));
            }
        }
        matching
    }

    /// Makes the error of a block whose seal definitions do not match.
    fn mismatch<ReadError>(&self, opid: Opid) -> (error: VerificationError<Seal, ReadError>)
        ensures
            error@ == self@.mismatch::<ReadError>(opid),
    {
        let defined = self.defined_tokens();
        let (reported, sources) = self.reported_seals();
        let error = VerificationError::SealsDefinitionMismatch { opid, reported, defined, sources };
        error
    }

    /// Returns the tokens of the destructible cells which the operation defines.
    fn defined_tokens(&self) -> (tokens: BTreeSet<(u128, u128)>)
        ensures
            crate::error::token_set(tokens@) == self@.operation.tokens(),
    {
        let cells = &self.operation.parts().destructible_out;
        let mut tokens: BTreeSet<(u128, u128)> = BTreeSet::new();
        let mut i: usize = 0;
        while i < cells.len()
            invariant
                i <= cells.len(),
                forall|key: (u128, u128)| #[trigger]
                    tokens@.contains(key) <==> exists|j: int|
                        0 <= j < i && (#[trigger] cells@[j]).auth.spec_key() == key,
            decreases cells.len() - i,
        {
            let ghost before = tokens@;
            tokens.insert(cells[i].auth.key());
            i = i + 1;
            assert forall|key: (u128, u128)| #[trigger] tokens@.contains(key) implies exists|j: int|
                0 <= j < i && (#[trigger] cells@[j]).auth.spec_key() == key by {
                if before.contains(key) {
                } else {
                    assert(cells@[i - 1].auth.spec_key() == key);
                }
            }
        }
        assert(crate::error::token_set(tokens@) =~= self@.operation.tokens());
        tokens
    }

    /// Returns the tokens of the reported seals and their text, by the number of the output.
    fn reported_seals(&self) -> (reported: (BTreeSet<(u128, u128)>, BTreeMap<u16, String>))
        ensures
            crate::error::token_set(reported.0@) == self@.reported_tokens(),
            reported.1@.map_values(|text: String| text@) == self@.defined_seals.map_values(
                |definition: Seal::Definition| definition.text(),
            ),
    {
        let entries = self.defined_seals.entries();
        let mut tokens: BTreeSet<(u128, u128)> = BTreeSet::new();
        let mut sources: BTreeMap<u16, String> = BTreeMap::new();
        let mut i: usize = 0;
        while i < entries.len()
            invariant
                i <= entries.len(),
                crate::seals::lists(entries@, self.defined_seals@),
                forall|key: (u128, u128)| #[trigger]
                    tokens@.contains(key) <==> exists|j: int|
                        0 <= j < i && (#[trigger] entries@[j]).1.token().spec_key() == key,
                forall|pos: u16| #[trigger]
                    sources@.contains_key(pos) <==> exists|j: int|
                        0 <= j < i && (#[trigger] entries@[j]).0 == pos,
                forall|j: int|
                    0 <= j < i ==> sources@[(#[trigger] entries@[j]).0]@ == entries@[j].1.text(),
            decreases entries.len() - i,
        {
            let ghost tokens_before = tokens@;
            let ghost sources_before = sources@;
            let (pos, definition) = &entries[i];
            tokens.insert(definition.auth_token().key());
            sources.insert(*pos, definition.to_text());
            i = i + 1;
            assert forall|key: (u128, u128)| #[trigger] tokens@.contains(key) implies exists|j: int|
                0 <= j < i && (#[trigger] entries@[j]).1.token().spec_key() == key by {
                if !tokens_before.contains(key) {
                    assert(entries@[i - 1].1.token().spec_key() == key);
                }
            }
            assert forall|p: u16| #[trigger] sources@.contains_key(p) implies exists|j: int|
                0 <= j < i && (#[trigger] entries@[j]).0 == p by {
                if !sources_before.contains_key(p) {
                    assert(entries@[i - 1].0 == p);
                }
            }
        }
        proof {
            assert forall|token: crate::ids::AuthToken| #[trigger] self@.reported_tokens().contains(token)
                implies crate::error::token_set(tokens@).contains(token) by {
                let pos = choose|pos: u16| #[trigger]
                    self@.defined_seals.contains_key(pos) && self@.defined_seals[pos].token()
                        == token;
                let j = choose|j: int| 0 <= j < entries@.len() && (#[trigger] entries@[j]).0 == pos;
            }
            assert(crate::error::token_set(tokens@) =~= self@.reported_tokens());
            assert(sources@.map_values(|text: String| text@) =~= self@.defined_seals.map_values(
                |definition: Seal::Definition| definition.text(),
            ));
        }
        (tokens, sources)
    }
}

/// A verification of the blocks of a consignment, one after the other.
#[verifier::reject_recursive_types(Seal)]
pub struct Verifier<Seal: RgbSeal> {
    setting: Setting,
    is_genesis: bool,
    seals: SealMap<Seal>,
}

impl<Seal: RgbSeal> View for Verifier<Seal> {
    type V = VerifierView<Seal>;

    closed spec fn view(&self) -> VerifierView<Seal> {
        VerifierView { is_genesis: self.is_genesis, seals: self.seals@ }
    }
}

impl<Seal: RgbSeal> Verifier<Seal> {
    /// What stays the same throughout the verification.
    pub closed spec fn fixed(&self) -> Setting {
        self.setting
    }

    /// Starts a verification.
    pub fn new(setting: Setting) -> (verifier: Self)
        ensures
            verifier@ == VerifierView::<Seal>::initial(),
            verifier.fixed() == setting,
    {
        Verifier { setting, is_genesis: true, seals: SealMap::new() }
    }

    /// Takes the seals of the inputs of an operation, as far as they are open.
    fn take_inputs(&mut self, inputs: &Vec<Input>)
        ensures
            final(self).fixed() == old(self).fixed(),
            final(self)@.is_genesis == old(self)@.is_genesis,
            final(self)@.seals == old(self)@.seals.remove_keys(
                inputs@.map_values(|input: Input| input.addr).to_set(),
            ),
    {
        let ghost addrs = inputs@.map_values(|input: Input| input.addr);
        let ghost before = self.seals@;
        let mut i: usize = 0;
        while i < inputs.len()
            invariant
                i <= inputs.len(),
                addrs == inputs@.map_values(|input: Input| input.addr),
                self.setting == old(self).setting,
                self.is_genesis == old(self).is_genesis,
                self.seals@ == before.remove_keys(addrs.take(i as int).to_set()),
            decreases inputs.len() - i,
        {
            self.seals.remove(&inputs[i].addr);
            proof {
                lemma_remove_next(before, addrs, i as int);
            }
            i = i + 1;
        }
        assert(addrs.take(i as int) =~= addrs);
    }

    /// Takes the seals which the inputs of an operation close, each from those which are open or,
    /// if it is not among them, from those which the contract knows. Fails at the first input
    /// whose seal is neither.
    fn claim_seals<C: ContractApi<Seal>>(
        &mut self,
        journal: &mut Journal<Seal>,
        contract: &mut C,
        inputs: &Vec<Input>,
        block: Ghost<BlockView<Seal>>,
    ) -> (claimed: (Result<Vec<Seal>, CellAddress>, Ghost<Seq<Option<Seal>>>))
        requires
            block@.operation.destructible_in == inputs@,
        ensures
            final(self).fixed() == old(self).fixed(),
            final(self)@.is_genesis == old(self)@.is_genesis,
            final(contract).history() == old(contract).history(),
            final(contract).rules() == old(contract).rules(),
            final(contract).libraries() == old(contract).libraries(),
            final(contract).id() == old(contract).id(),
            final(contract).cells() == old(contract).cells(),
            final(contract).spendable() == old(contract).spendable(),
            final(journal)@ == (Record {
                asked: old(journal)@.asked + block@.seal_questions(
                    old(self)@.seals,
                    claimed.1@,
                    claimed.1@.len(),
                ),
                ..old(journal)@
            }),
            forall|i: int|
                0 <= i < claimed.1@.len() && !#[trigger] block@.holds_seal(old(self)@.seals, i) ==> (
                claimed.1@[i] matches Some(seal) ==> crate::api::seal_applied(
                    old(contract).history(),
                    block@.operation.inputs()[i],
                    seal,
                )),
            block@.seal_questions(old(self)@.seals, claimed.1@, claimed.1@.len()).len() == 0
                ==> *final(contract) == *old(contract),
            claimed.0 is Ok ==> claimed.1@.len() == block@.operation.inputs().len(),
            claimed.0 matches Ok(closed) ==> {
                &&& final(self)@.seals == block@.remaining_seals(old(self)@.seals)
                &&& closed@ == block@.closed_seals(old(self)@.seals, claimed.1@)
                &&& forall|i: int|
                    0 <= i < block@.operation.inputs().len() ==> #[trigger] block@.claimed(
                        old(self)@.seals,
                        claimed.1@,
                        i,
                    ) is Some
                &&& forall|i: int|
                    !(#[trigger] block@.first_unclaimed(old(self)@.seals, claimed.1@, i))
            },
            claimed.0 matches Err(addr) ==> claimed.1@.len() > 0 && block@.first_unclaimed(
                old(self)@.seals,
                claimed.1@,
                claimed.1@.len() - 1,
            ) && block@.operation.inputs()[claimed.1@.len() - 1] == addr,
    {
        let ghost addrs = block@.operation.inputs();
        let ghost before = self.seals@;
        let ghost mut answers: Seq<Option<Seal>> = Seq::empty();
        let mut closed: Vec<Seal> = Vec::new();
        let mut i: usize = 0;
        while i < inputs.len()
            invariant
                i <= inputs.len(),
                block@.operation.destructible_in == inputs@,
                addrs == block@.operation.inputs(),
                before == old(self)@.seals,
                self.setting == old(self).setting,
                self.is_genesis == old(self).is_genesis,
                contract.history() == old(contract).history(),
                contract.rules() == old(contract).rules(),
                contract.libraries() == old(contract).libraries(),
                contract.id() == old(contract).id(),
                contract.cells() == old(contract).cells(),
                contract.spendable() == old(contract).spendable(),
                self.seals@ == before.remove_keys(addrs.take(i as int).to_set()),
                answers.len() == i,
                forall|j: int|
                    0 <= j < i && !#[trigger] block@.holds_seal(before, j) ==> (
                    answers[j] matches Some(seal) ==> crate::api::seal_applied(
                        old(contract).history(),
                        addrs[j],
                        seal,
                    )),
                block@.seal_questions(before, answers, i as nat).len() == 0 ==> *contract == *old(
                    contract,
                ),
                journal@.ids == old(journal)@.ids,
                journal@.consulted == old(journal)@.consulted,
                journal@.calls == old(journal)@.calls,
                journal@.asked == old(journal)@.asked + block@.seal_questions(
                    before,
                    answers,
                    i as nat,
                ),
                closed@.len() == i,
                forall|j: int|
                    0 <= j < i ==> #[trigger] block@.claimed(before, answers, j) == Some(closed@[j]),
            decreases inputs.len() - i,
        {
            let addr = inputs[i].addr;
            let ghost answered = answers;
            proof {
                assert(addrs[i as int] == addr);
                lemma_remove_next(before, addrs, i as int);
                assert(self.seals@.contains_key(addr) <==> block@.holds_seal(before, i as int));
            }
            let seal = match self.seals.remove(&addr) {
                Some(seal) => {
                    proof {
                        answers = answers.push(None);
                    }
                    Some(seal)
                },
                None => {
                    let known = journal.known_seal(contract, addr);
                    proof {
                        answers = answers.push(known);
                    }
                    known
                },
            };
            proof {
                block@.lemma_seal_questions(before, answered, answers, i as nat);
                assert(block@.seal_questions(before, answers, (i + 1) as nat)
                    == if block@.holds_seal(before, i as int) {
                    block@.seal_questions(before, answers, i as nat)
                } else {
                    block@.seal_questions(before, answers, i as nat).push(
                        Question::KnownSeal(addr, answers[i as int]),
                    )
                });
                assert(journal@.asked =~= old(journal)@.asked + block@.seal_questions(
                    before,
                    answers,
                    (i + 1) as nat,
                ));
                assert(block@.claimed(before, answers, i as int) == seal);
                assert forall|j: int| 0 <= j < i implies #[trigger] block@.claimed(
                    before,
                    answers,
                    j,
                ) == Some(closed@[j]) by {
                    assert(block@.claimed(before, answered, j) == Some(closed@[j]));
                }
            }
            match seal {
                Some(seal) => {
                    closed.push(seal);
                },
                None => {
                    assert(block@.first_unclaimed(old(self)@.seals, answers, i as int));
                    assert(block@.operation.inputs()[i as int] == addr);
                    return (Err(addr), Ghost(answers));
                },
            }
            i = i + 1;
        }
        proof {
            assert(addrs.take(i as int) =~= addrs);
            assert(closed@ =~= block@.closed_seals(before, answers));
        }
        (Ok(closed), Ghost(answers))
    }

    /// Opens the seals which an operation defines.
    fn open_seals(
        &mut self,
        opid: Opid,
        defined_seals: &DefinedSeals<Seal::Definition>,
        witness: &Option<SealWitness<Seal>>,
        block: Ghost<BlockView<Seal>>,
    )
        requires
            block@.defined_seals == defined_seals@,
            block@.witness == *witness,
        ensures
            final(self).fixed() == old(self).fixed(),
            final(self)@.is_genesis == old(self)@.is_genesis,
            final(self)@.seals == block@.opened_seals(opid, old(self)@.seals),
    {
        let pub_id = match witness {
            Some(witness) => Some(Seal::pub_id(&witness.published)),
            None => None,
        };
        let entries = defined_seals.entries();
        let ghost before = self.seals@;
        let mut i: usize = 0;
        while i < entries.len()
            invariant
                i <= entries.len(),
                crate::seals::lists(entries@, block@.defined_seals),
                pub_id == (match block@.witness {
                    Some(witness) => Some(Seal::publication(witness.published)),
                    None => None,
                }),
                self.setting == old(self).setting,
                self.is_genesis == old(self).is_genesis,
                forall|addr: CellAddress| #[trigger]
                    self.seals@.contains_key(addr) <==> before.contains_key(addr) || (block@.opens(
                        opid,
                        addr,
                    ) && exists|j: int| 0 <= j < i && (#[trigger] entries@[j]).0 == addr.pos),
                forall|addr: CellAddress| #[trigger]
                    self.seals@.contains_key(addr) ==> self.seals@[addr] == (if block@.opens(
                        opid,
                        addr,
                    ) && exists|j: int| 0 <= j < i && (#[trigger] entries@[j]).0 == addr.pos {
                        block@.defined_seal(addr.pos)->0
                    } else {
                        before[addr]
                    }),
            decreases entries.len() - i,
        {
            let (pos, definition) = &entries[i];
            let seal = match definition.to_src() {
                Some(seal) => Some(seal),
                None => match pub_id {
                    Some(pub_id) => Some(definition.resolve(pub_id)),
                    None => None,
                },
            };
            assert(seal == block@.defined_seal(entries@[i as int].0));
            if let Some(seal) = seal {
                self.seals.insert(CellAddress::new(opid, *pos), seal);
            }
            i = i + 1;
        }
        assert(self.seals@ =~= block@.opened_seals(opid, before));
    }
}

/// Whether the verification of a block has come to what follows from the answers of the contract
/// and of its codex: its result, what is carried to the next block, and what has been applied to
/// the contract. Where no call is made, the cells of the contract stay as they are; where nothing is
/// asked either, the contract is left alone.
pub open spec fn block_verified<Seal: RgbSeal, C: ContractApi<Seal>, ReadError>(
    setting: Setting,
    before: (VerifierView<Seal>, C),
    after: (VerifierView<Seal>, C),
    block: BlockView<Seal>,
    memo_opid: Opid,
    answers: Answers<Seal, C::Memory>,
    result: Result<(), ErrorView<Seal, ReadError>>,
) -> bool {
    let step = before.0.step::<C::Memory, ReadError>(setting, block, memo_opid, answers);
    &&& answers_possible(setting, before, block, memo_opid, answers)
    &&& after.1.history() == before.1.history() + step.applied
    &&& after.1.id() == before.1.id()
    &&& after.1.rules() == before.1.rules()
    &&& after.1.libraries() == before.1.libraries()
    &&& crate::api::spendable_by(before.1.spendable(), step.applied, after.1.spendable())
    &&& step.calls.len() == 0 ==> after.1.cells() == before.1.cells() && after.1.spendable()
        == before.1.spendable()
    &&& step.questions.len() == 0 && step.calls.len() == 0 ==> after.1 == before.1
    &&& match (result, step.result) {
        (Ok(()), Ok(carried)) => after.0 == carried,
        (Err(error), Err(refusal)) => error == refusal,
        _ => false,
    }
}

/// Whether the answers are those which the contract and its codex may give, as far as the questions
/// are asked.
pub open spec fn answers_possible<Seal: RgbSeal, C: ContractApi<Seal>>(
    setting: Setting,
    before: (VerifierView<Seal>, C),
    block: BlockView<Seal>,
    memo_opid: Opid,
    answers: Answers<Seal, C::Memory>,
) -> bool {
    block.identity::<()>(setting, before.0.is_genesis, memo_opid) matches Ok(opid)
        ==> answers_given(
        setting.contract_id,
        before,
        block.for_contract(setting, before.0.is_genesis),
        opid,
        answers,
    )
}

/// Whether the answers to what is asked of an identified block are those of the contract and of
/// its codex.
pub open spec fn answers_given<Seal: RgbSeal, C: ContractApi<Seal>>(
    contract_id: ContractId,
    before: (VerifierView<Seal>, C),
    block: BlockView<Seal>,
    opid: Opid,
    answers: Answers<Seal, C::Memory>,
) -> bool {
    let history = before.1.history();
    &&& answers.known == before.1.knows(opid)
    &&& block.witness_accepted(answers) ==> crate::api::witness_applied(
        history,
        opid,
        block.witness->0,
    )
    &&& block.fully_known(answers) ==> crate::api::definitions_applied(
        history,
        opid,
        block.defined_seals,
    )
    &&& forall|i: int| #[trigger]
        block.asks_seal(before.0.seals, answers, i) ==> (
        answers.known_seals[i] matches Some(seal) ==> crate::api::seal_applied(
            history,
            block.operation.inputs()[i],
            seal,
        ))
    &&& block.asks_codex(before.0.seals, answers) ==> codex_answers(
        contract_id,
        before.1,
        block.operation,
        answers,
    )
}

/// Whether the verdict is that of the codex of a contract, on its state.
pub open spec fn codex_answers<Seal: RgbSeal, C: ContractApi<Seal>>(
    contract_id: ContractId,
    contract: C,
    operation: OperationView,
    answers: Answers<Seal, C::Memory>,
) -> bool {
    &&& answers.memory == contract.cells()
    &&& Some(answers.verdict) == crate::codex::codex_verdict(
        contract.rules(),
        contract_id,
        operation,
        crate::codex::owned_cells(answers.memory),
        crate::codex::global_cells(answers.memory),
        crate::codex::libraries(contract.libraries()),
    )
    &&& crate::codex::possible_verdict(contract_id, operation, answers.memory, answers.verdict)
}

/// Whether the seal of each input is open in the consignment or may be known to the contract.
pub open spec fn seals_may_be_known<Seal: RgbSeal, C: ContractApi<Seal>>(
    before: (VerifierView<Seal>, C),
    block: BlockView<Seal>,
) -> bool {
    forall|i: int|
        0 <= i < block.operation.inputs().len() && !#[trigger] block.holds_seal(before.0.seals, i)
            ==> exists|seal: Seal| #[trigger]
            crate::api::seal_applied(before.1.history(), block.operation.inputs()[i], seal)
}

/// Whether the scripts come to an end which the codex of a contract runs on a block, on the state of
/// the contract as it is. It runs none unless the operation is identified, is not known, its seal
/// definitions match, and the seals of its inputs may be known.
pub open spec fn block_ends<Seal: RgbSeal, C: ContractApi<Seal>>(
    setting: Setting,
    before: (VerifierView<Seal>, C),
    block: BlockView<Seal>,
    memo_opid: Opid,
) -> bool {
    let identified = block.for_contract(setting, before.0.is_genesis);
    block.identity::<()>(setting, before.0.is_genesis, memo_opid) matches Ok(opid)
        ==> !before.1.knows(opid) && identified.definitions_match() && seals_may_be_known(
        before,
        identified,
    ) ==> crate::codex::scripts_end(
        before.1.rules(),
        setting.contract_id,
        identified.operation,
        before.1.cells(),
        before.1.libraries(),
    )
}

impl<Seal: RgbSeal> Verifier<Seal> {
    /// Verifies a block of a consignment and applies it to the contract.
    pub fn verify_block<C: ContractApi<Seal>, ReadError>(
        &mut self,
        journal: &mut Journal<Seal>,
        contract: &mut C,
        memo_opid: Opid,
        block: OperationSeals<Seal>,
    ) -> (verified: Result<(), VerificationError<Seal, ReadError>>)
        requires
            block_ends::<Seal, C>(
                old(self).fixed(),
                (old(self)@, *old(contract)),
                block@,
                memo_opid,
            ),
        ensures
            final(self).fixed() == old(self).fixed(),
            exists|answers: Answers<Seal, C::Memory>| #[trigger]
                block_verified::<Seal, C, ReadError>(
                    old(self).fixed(),
                    (old(self)@, *old(contract)),
                    (final(self)@, *final(contract)),
                    block@,
                    memo_opid,
                    answers,
                    crate::error::outcome(verified),
                ) && final(journal)@ == old(journal)@.block(
                    old(self)@.step::<C::Memory, ReadError>(
                        old(self).fixed(),
                        block@,
                        memo_opid,
                        answers,
                    ),
                ),
    {
        let (verified, answers) = self.verify_with_answers(journal, contract, memo_opid, block);
        verified
    }

    /// Verifies a block and applies it to the contract, telling what the contract has answered.
    #[verifier::rlimit(30)]
    fn verify_with_answers<C: ContractApi<Seal>, ReadError>(
        &mut self,
        journal: &mut Journal<Seal>,
        contract: &mut C,
        memo_opid: Opid,
        block: OperationSeals<Seal>,
    ) -> (verified: (
        Result<(), VerificationError<Seal, ReadError>>,
        Ghost<Answers<Seal, C::Memory>>,
    ))
        requires
            block_ends::<Seal, C>(
                old(self).fixed(),
                (old(self)@, *old(contract)),
                block@,
                memo_opid,
            ),
        ensures
            final(self).fixed() == old(self).fixed(),
            final(journal)@ == old(journal)@.block(
                old(self)@.step::<C::Memory, ReadError>(
                    old(self).fixed(),
                    block@,
                    memo_opid,
                    verified.1@,
                ),
            ),
            block_verified::<Seal, C, ReadError>(
                old(self).fixed(),
                (old(self)@, *old(contract)),
                (final(self)@, *final(contract)),
                block@,
                memo_opid,
                verified.1@,
                crate::error::outcome(verified.0),
            ),
    {
        let ghost given = block@;
        let ghost setting = self.setting;
        let ghost is_genesis = self.is_genesis;
        let ghost mut answers = Answers::<Seal, C::Memory> {
            known: false,
            witness_known: false,
            seals_known: false,
            known_seals: Seq::empty(),
            memory: arbitrary(),
            verdict: arbitrary(),
        };
        let mut block = block;
        let opid = match block.identify::<ReadError>(self.setting, self.is_genesis, memo_opid) {
            Ok(opid) => opid,
            Err(error) => {
                return (Err(error), Ghost(answers));
            },
        };
        let ghost identified = block@;

        // If the full operation aux data has already been accepted, the stored seal definitions
        // were validated against this operation before. Unknown or partially known aux data still
        // falls through to the normal subset and witness checks below.
        let known = contract.is_known(opid);
        let witness_known = match &block.witness {
            Some(witness) => if known {
                journal.is_witness_known(contract, opid, witness)
            } else {
                false
            },
            None => false,
        };
        let seals_known = if witness_known {
            journal.are_seals_known(contract, opid, &block.defined_seals)
        } else {
            false
        };
        proof {
            answers = Answers { known, witness_known, seals_known, ..answers };
        }
        let ghost asked = identified.known_questions(opid, answers);
        assert(journal@.asked =~= old(journal)@.asked + asked);
        if seals_known {
            self.take_inputs(&block.operation.parts().destructible_in);
            let OperationSeals { operation, defined_seals, witness } = block;
            if let Some(witness) = witness {
                journal.apply_witness(contract, opid, witness);
            }
            if !self.is_genesis {
                journal.stage_known_operation(contract, opid, &operation);
            }
            if !defined_seals.is_empty() {
                journal.apply_seals(contract, opid, defined_seals);
            }
            proof {
                let staged = identified.stage_calls(is_genesis, opid);
                let witness_calls = identified.witness_calls(opid);
                let seal_calls = identified.seal_calls(opid);
                assert(contract.history() =~= old(contract).history() + (witness_calls
                    + seal_calls));
                assert(journal@.calls =~= old(journal)@.calls + (witness_calls + staged
                    + seal_calls));
                assert(self@.seals == identified.remaining_seals(old(self)@.seals));
            }
            return (Ok(()), Ghost(answers));
        }

        if !block.definitions_match() {
            return (Err(block.mismatch(opid)), Ghost(answers));
        }

        // Collect single-use seal closings by the operation
        let mut closed: Vec<Seal> = Vec::new();
        if witness_known {
            self.take_inputs(&block.operation.parts().destructible_in);
        } else {
            let (claimed, claims) = self.claim_seals(
                journal,
                contract,
                &block.operation.parts().destructible_in,
                Ghost(identified),
            );
            proof {
                answers = Answers { known_seals: claims@, ..answers };
            }
            match claimed {
                Ok(seals) => {
                    closed = seals;
                },
                Err(addr) => {
                    proof {
                        identified.lemma_first_unclaimed(
                            old(self)@.seals,
                            claims@,
                            claims@.len() - 1,
                        );
                    }
                    return (Err(VerificationError::SealUnknown(addr)), Ghost(answers));
                },
            }
        }

        let OperationSeals { operation, defined_seals, witness } = block;
        let verified = if known {
            None
        } else {
            // Verify the operation
            let ghost before = (old(self)@, *old(contract));
            assert(seals_may_be_known(before, identified)) by {
                assert forall|i: int|
                    0 <= i < identified.operation.inputs().len()
                        && !#[trigger] identified.holds_seal(before.0.seals, i) implies exists|
                    seal: Seal,
                | #[trigger]
                    crate::api::seal_applied(
                        before.1.history(),
                        identified.operation.inputs()[i],
                        seal,
                    ) by {
                    assert(identified.claimed(before.0.seals, answers.known_seals, i) is Some);
                    assert(crate::api::seal_applied(
                        before.1.history(),
                        identified.operation.inputs()[i],
                        answers.known_seals[i]->0,
                    ));
                }
            }
            assert(given.identity::<()>(setting, is_genesis, memo_opid) == Ok::<
                Opid,
                ErrorView<Seal, ()>,
            >(opid));
            let memory = journal.memory(contract);
            let codex = journal.codex(contract);
            let repo = journal.repo(contract);
            let verified = verify_operation(
                codex,
                self.setting.contract_id,
                operation,
                memory,
                repo,
            );
            proof {
                answers = Answers {
                    memory: *memory,
                    verdict: crate::codex::verdict_of(verified),
                    ..answers
                };
                assert(codex_answers::<Seal, C>(
                    setting.contract_id,
                    *contract,
                    identified.operation,
                    answers,
                ));
            }
            match verified {
                Ok(verified) => Some(verified),
                Err(failure) => {
                    return (Err(VerificationError::Vm(failure)), Ghost(answers));
                },
            }
        };

        // Now we can add operation-defined seals to the set of known seals
        self.open_seals(opid, &defined_seals, &witness, Ghost(identified));

        if !witness_known {
            match verify_closing(opid, &witness, &closed) {
                Ok(()) => {},
                Err(error) => {
                    return (Err(error), Ghost(answers));
                },
            }
        }
        if let Some(witness) = witness {
            journal.apply_witness(contract, opid, witness);
        }

        if self.is_genesis {
            self.is_genesis = false;
        } else if let Some(verified) = verified {
            journal.apply_operation(contract, verified);
        }

        if !defined_seals.is_empty() {
            journal.apply_seals(contract, opid, defined_seals);
        }
        proof {
            let calls = identified.witness_calls(opid) + identified.operation_calls(
                is_genesis,
                answers,
            ) + identified.seal_calls(opid);
            assert(contract.history() =~= old(contract).history() + calls);
            assert(journal@.calls =~= old(journal)@.calls + calls);
            assert forall|addr: CellAddress| #[trigger]
                contract.spendable().contains(addr) implies old(contract).spendable().contains(addr)
                || crate::api::cell_applied(calls, addr) by {
                if !old(contract).spendable().contains(addr) {
                    let operation_calls = identified.operation_calls(is_genesis, answers);
                    assert(crate::api::cell_applied(operation_calls, addr));
                    let k = identified.witness_calls(opid).len() as int;
                    assert(calls[k] == operation_calls[0]);
                }
            }
            assert(self@.seals == identified.opened_seals(
                opid,
                identified.remaining_seals(old(self)@.seals),
            ));
        }
        (Ok(()), Ghost(answers))
    }
}

/// What has happened while the blocks of a consignment were verified.
pub struct Trace<Seal: RgbSeal, C: ContractApi<Seal>> {
    /// The verification and the contract, before each block and after the last accepted one.
    pub states: Seq<(VerifierView<Seal>, C)>,
    /// The operation ids which came from the reader, block by block: each the one which the reader
    /// has computed or the one which is computed in its place.
    pub memos: Seq<Opid>,
    /// What the contract and its codex have answered, block by block.
    pub answers: Seq<Answers<Seal, C::Memory>>,
}

impl<Seal: RgbSeal, C: ContractApi<Seal>> Trace<Seal, C> {
    /// The number of the blocks which are accepted.
    pub open spec fn accepted(self) -> int {
        self.states.len() - 1
    }

    /// Whether the verification and the contract have gone through the accepted blocks so, from
    /// the start.
    pub open spec fn runs<ReadError>(
        self,
        setting: Setting,
        blocks: Seq<Result<(Opid, OperationSeals<Seal>), ReadError>>,
        contract: C,
    ) -> bool {
        &&& self.states.len() > 0
        &&& self.states[0] == (VerifierView::<Seal>::initial(), contract)
        &&& self.accepted() <= blocks.len()
        &&& self.accepted() <= self.memos.len()
        &&& self.accepted() <= self.answers.len()
        &&& forall|i: int|
            0 <= i < self.accepted() ==> #[trigger] self.accepts::<ReadError>(setting, blocks, i)
    }

    /// Whether a block is accepted.
    pub open spec fn accepts<ReadError>(
        self,
        setting: Setting,
        blocks: Seq<Result<(Opid, OperationSeals<Seal>), ReadError>>,
        i: int,
    ) -> bool {
        &&& blocks[i] matches Ok((memo, block))
        &&& self.memos[i] == memo || self.memos[i] == crate::operation::operation_commitment(
            block.operation@,
        )
        &&& block_verified::<Seal, C, ReadError>(
            setting,
            self.states[i],
            self.states[i + 1],
            block@,
            self.memos[i],
            self.answers[i],
            Ok(()),
        )
    }

    /// What the verification of a block comes to.
    pub open spec fn step<ReadError>(
        self,
        setting: Setting,
        blocks: Seq<Result<(Opid, OperationSeals<Seal>), ReadError>>,
        i: int,
    ) -> Step<Seal, ReadError> {
        self.states[i].0.step::<C::Memory, ReadError>(
            setting,
            blocks[i]->Ok_0.1@,
            self.memos[i],
            self.answers[i],
        )
    }

    /// What passes between the reader, the verification and the contract over the first `n` blocks,
    /// after what has passed before.
    pub open spec fn record<ReadError>(
        self,
        earlier: Record<Seal>,
        setting: Setting,
        blocks: Seq<Result<(Opid, OperationSeals<Seal>), ReadError>>,
        n: nat,
    ) -> Record<Seal>
        decreases n,
    {
        if n == 0 {
            earlier
        } else {
            self.record(earlier, setting, blocks, (n - 1) as nat).id(self.memos[n - 1]).block(
                self.step(setting, blocks, n - 1),
            )
        }
    }

    /// What passes between the reader, the verification and the contract over all blocks, the one
    /// which is refused included.
    pub open spec fn whole_record<ReadError>(
        self,
        earlier: Record<Seal>,
        setting: Setting,
        blocks: Seq<Result<(Opid, OperationSeals<Seal>), ReadError>>,
        result: Result<(), ErrorView<Seal, ReadError>>,
    ) -> Record<Seal> {
        let n = self.accepted();
        let record = self.record(earlier, setting, blocks, n as nat);
        match result {
            Ok(()) => record,
            Err(ErrorView::Stream(_)) => record,
            Err(_) => record.id(self.memos[n]).block(self.step(setting, blocks, n)),
        }
    }

    /// Whether the same happens in a block of two verifications.
    spec fn agrees(self, other: Trace<Seal, C>, i: int) -> bool {
        &&& self.states[i] == other.states[i]
        &&& self.memos[i] == other.memos[i]
        &&& self.answers[i] == other.answers[i]
    }

    /// The record of some blocks depends on what happens in them alone.
    proof fn lemma_record<ReadError>(
        self,
        longer: Trace<Seal, C>,
        earlier: Record<Seal>,
        setting: Setting,
        blocks: Seq<Result<(Opid, OperationSeals<Seal>), ReadError>>,
        n: nat,
    )
        requires
            forall|i: int| 0 <= i < n ==> #[trigger] self.agrees(longer, i),
        ensures
            self.record(earlier, setting, blocks, n) == longer.record(earlier, setting, blocks, n),
        decreases n,
    {
        if n > 0 {
            self.lemma_record(longer, earlier, setting, blocks, (n - 1) as nat);
            assert(self.agrees(longer, n - 1));
        }
    }

    /// Whether the verification has gone through the accepted blocks so, and the reader hands over
    /// one more with this id.
    pub open spec fn goes_on<ReadError>(
        self,
        setting: Setting,
        blocks: Seq<Result<(Opid, OperationSeals<Seal>), ReadError>>,
        contract: C,
        memo_opid: Opid,
    ) -> bool {
        &&& self.runs(setting, blocks, contract)
        &&& self.accepted() < blocks.len()
        &&& blocks[self.accepted()] matches Ok((memo, block)) && (memo_opid == memo || memo_opid
            == crate::operation::operation_commitment(block.operation@))
    }

    /// Whether the verification has ended so: with the end of the consignment, with a read which
    /// fails, or with a block which is refused.
    pub open spec fn ends<ReadError>(
        self,
        setting: Setting,
        blocks: Seq<Result<(Opid, OperationSeals<Seal>), ReadError>>,
        contract: C,
        result: Result<(), ErrorView<Seal, ReadError>>,
    ) -> bool {
        let n = self.accepted();
        match result {
            Ok(()) => n == blocks.len() && contract == self.states[n].1,
            Err(ErrorView::Stream(error)) => n < blocks.len() && (blocks[n] matches Err(read)
                && read == error) && contract == self.states[n].1,
            Err(_) => n < blocks.len() && (blocks[n] matches Ok((memo, block)) && self.refuses(
                setting,
                memo,
                block@,
                contract,
                result,
            )),
        }
    }

    /// Whether the block after the accepted ones is refused.
    pub open spec fn refuses<ReadError>(
        self,
        setting: Setting,
        memo: Opid,
        block: BlockView<Seal>,
        contract: C,
        result: Result<(), ErrorView<Seal, ReadError>>,
    ) -> bool {
        let n = self.accepted();
        &&& n < self.memos.len()
        &&& n < self.answers.len()
        &&& self.memos[n] == memo || self.memos[n] == crate::operation::operation_commitment(
            block.operation,
        )
        &&& exists|last: VerifierView<Seal>| #[trigger]
            block_verified::<Seal, C, ReadError>(
                setting,
                self.states[n],
                (last, contract),
                block,
                self.memos[n],
                self.answers[n],
                result,
            )
    }
}

/// Whether the verification of a consignment has gone so and has come to this result.
pub open spec fn evaluated<Seal: RgbSeal, C: ContractApi<Seal>, ReadError>(
    trace: Trace<Seal, C>,
    setting: Setting,
    blocks: Seq<Result<(Opid, OperationSeals<Seal>), ReadError>>,
    before: C,
    after: C,
    result: Result<(), ErrorView<Seal, ReadError>>,
) -> bool {
    trace.runs(setting, blocks, before) && trace.ends(setting, blocks, after, result)
}

/// The record with what is consulted when a verification starts: the id of the contract and its
/// codex.
pub open spec fn started<Seal: RgbSeal>(record: Record<Seal>) -> Record<Seal> {
    record.consult(Consulted::ContractId).consult(Consulted::Codex)
}

/// What stays the same throughout the verification of a contract.
pub open spec fn setting_of<Seal: RgbSeal, C: ContractApi<Seal>>(
    contract: C,
    memo_check: bool,
) -> Setting {
    Setting {
        contract_id: contract.id(),
        codex_id: crate::codex::codex_commitment(contract.rules()),
        memo_check,
    }
}

/// Whether the scripts which the codex of a contract really runs on the operations of a consignment
/// come to an end: those on the block which comes next, wherever the verification may get to.
pub open spec fn consignment_ends<Seal: RgbSeal, C: ContractApi<Seal>, ReadError>(
    contract: C,
    setting: Setting,
    blocks: Seq<Result<(Opid, OperationSeals<Seal>), ReadError>>,
) -> bool {
    forall|trace: Trace<Seal, C>, memo_opid: Opid|
        #![trigger trace.goes_on(setting, blocks, contract, memo_opid)]
        trace.goes_on(setting, blocks, contract, memo_opid) ==> block_ends::<Seal, C>(
            setting,
            trace.states[trace.accepted()],
            blocks[trace.accepted()]->Ok_0.1@,
            memo_opid,
        )
}

/// Verifies and applies the operations of a consignment, telling how it went.
fn evaluate_with_trace<Seal: RgbSeal, C: ContractApi<Seal>, R: ReadOperation<Seal = Seal>>(
    contract: &mut C,
    reader: R,
    memo_check: bool,
    journal: &mut Journal<Seal>,
) -> (result: (Result<(), VerificationError<Seal, R::Error>>, Ghost<Trace<Seal, C>>))
    requires
        consignment_ends::<Seal, C, R::Error>(
            *old(contract),
            setting_of::<Seal, C>(*old(contract), memo_check),
            reader.pending(),
        ),
    ensures
        evaluated::<Seal, C, R::Error>(
            result.1@,
            setting_of::<Seal, C>(*old(contract), memo_check),
            reader.pending(),
            *old(contract),
            *final(contract),
            crate::error::outcome(result.0),
        ),
        final(journal)@ == result.1@.whole_record(
            started(old(journal)@),
            setting_of::<Seal, C>(*old(contract), memo_check),
            reader.pending(),
            crate::error::outcome(result.0),
        ),
{
    let setting = Setting {
        contract_id: journal.contract_id(contract),
        codex_id: codex_id(journal.codex(contract)),
        memo_check,
    };
    let ghost blocks = reader.pending();
    let mut source = reader;
    let mut verifier = Verifier::<Seal>::new(setting);
    let ghost mut trace = Trace::<Seal, C> {
        states: seq![(verifier@, *contract)],
        memos: seq![],
        answers: seq![],
    };
    loop
        invariant
            setting == setting_of::<Seal, C>(*old(contract), memo_check),
            verifier.fixed() == setting,
            journal@ == trace.record(started(old(journal)@), setting, blocks, trace.accepted() as nat),
            consignment_ends::<Seal, C, R::Error>(*old(contract), setting, blocks),
            trace.runs(setting, blocks, *old(contract)),
            trace.memos.len() == trace.accepted(),
            trace.answers.len() == trace.accepted(),
            trace.states[trace.accepted()] == (verifier@, *contract),
            blocks == reader.pending(),
            source.pending() == blocks.skip(trace.accepted()),
        decreases blocks.len() - trace.accepted(),
    {
        let ghost n = trace.accepted();
        match journal.read(&mut source) {
            Ok(Some((memo_opid, block))) => {
                assert(blocks[n] == blocks.skip(n)[0]);
                assert(trace.goes_on(setting, blocks, *old(contract), memo_opid));
                let ghost went = trace;
                let (verified, answers) = verifier.verify_with_answers(
                    journal,
                    contract,
                    memo_opid,
                    block,
                );
                proof {
                    trace.memos = trace.memos.push(memo_opid);
                    trace.answers = trace.answers.push(answers@);
                    went.lemma_record(trace, started(old(journal)@), setting, blocks, n as nat);
                    assert(journal@ == trace.record(started(old(journal)@), setting, blocks, n as nat).id(
                        memo_opid,
                    ).block(trace.step(setting, blocks, n)));
                }
                if verified.is_err() {
                    proof {
                        assert forall|i: int| 0 <= i < n implies #[trigger] trace.accepts(
                            setting,
                            blocks,
                            i,
                        ) by {
                            assert(went.accepts(setting, blocks, i));
                        }
                        assert(block_verified::<Seal, C, R::Error>(
                            setting,
                            trace.states[n],
                            (verifier@, *contract),
                            blocks[n]->Ok_0.1@,
                            trace.memos[n],
                            trace.answers[n],
                            crate::error::outcome(verified),
                        ));
                        assert(trace.refuses(
                            setting,
                            blocks[n]->Ok_0.0,
                            blocks[n]->Ok_0.1@,
                            *contract,
                            crate::error::outcome(verified),
                        ));
                    }
                    return (verified, Ghost(trace));
                }
                proof {
                    let unfinished = trace;
                    trace.states = trace.states.push((verifier@, *contract));
                    unfinished.lemma_record(trace, started(old(journal)@), setting, blocks, n as nat);
                    assert(trace.step(setting, blocks, n) == unfinished.step(setting, blocks, n));
                    assert forall|i: int| 0 <= i < trace.accepted() implies #[trigger] trace.accepts(
                        setting,
                        blocks,
                        i,
                    ) by {
                        if i < n {
                            assert(went.accepts(setting, blocks, i));
                        }
                    }
                    assert(blocks.skip(n).drop_first() =~= blocks.skip(n + 1));
                }
            },
            Ok(None) => {
                return (Ok(()), Ghost(trace));
            },
            Err(error) => {
                assert(blocks[n] == blocks.skip(n)[0]);
                return (Err(VerificationError::Stream(error)), Ghost(trace));
            },
        }
    }
}

/// Main implementation of the contract verification procedure.
///
/// This trait cannot be manually implemented; it is always accessible as a blanket implementation
/// for all types implementing [`ContractApi`] trait. The purpose of the trait is to prevent
/// overriding of the implementation in client libraries.
pub trait ContractVerify<Seal: RgbSeal>: ContractApi<Seal> {
    /// Evaluate contract state by verifying and applying contract operations coming from a
    /// consignment `reader`.
    ///
    /// The scripts which the codex runs on the way have to come to an end. With `memo_check`, the
    /// operation ids which come from the reader are recomputed, and the verification ends at the
    /// first one which differs. The journal records what is read, asked and called.
    fn evaluate<R: ReadOperation<Seal = Seal>>(
        &mut self,
        reader: R,
        memo_check: bool,
        journal: &mut Journal<Seal>,
    ) -> (result: Result<(), VerificationError<Seal, R::Error>>)
        requires
            consignment_ends::<Seal, Self, R::Error>(
                *old(self),
                setting_of::<Seal, Self>(*old(self), memo_check),
                reader.pending(),
            ),
        ensures
            exists|trace: Trace<Seal, Self>| #[trigger]
                evaluated::<Seal, Self, R::Error>(
                    trace,
                    setting_of::<Seal, Self>(*old(self), memo_check),
                    reader.pending(),
                    *old(self),
                    *final(self),
                    crate::error::outcome(result),
                ) && final(journal)@ == trace.whole_record(
                    started(old(journal)@),
                    setting_of::<Seal, Self>(*old(self), memo_check),
                    reader.pending(),
                    crate::error::outcome(result),
                ),
    {
        let (result, trace) = evaluate_with_trace(self, reader, memo_check, journal);
        result
    }
}

impl<Seal: RgbSeal, C: ContractApi<Seal>> ContractVerify<Seal> for C {

}

/// Verifies that the witness of an operation closes the seals of its inputs. An operation without
/// a witness may close none.
pub fn verify_closing<Seal: RgbSeal, ReadError>(
    opid: Opid,
    witness: &Option<SealWitness<Seal>>,
    closed: &Vec<Seal>,
) -> (verified: Result<(), VerificationError<Seal, ReadError>>)
    ensures
        match *witness {
            Some(witness) => match Seal::closing(
                witness.published,
                witness.client,
                closed@,
                opid,
            ) {
                Ok(()) => verified is Ok,
                Err(error) => verified == Err::<(), VerificationError<Seal, ReadError>>(
                    VerificationError::SealsNotClosed(
                        Seal::publication(witness.published),
                        opid,
                        error,
                    ),
                ),
            },
            None => if closed@.len() > 0 {
                verified == Err::<(), VerificationError<Seal, ReadError>>(
                    VerificationError::NoWitness(opid),
                )
            } else {
                verified is Ok
            },
        },
{
    match witness {
        Some(witness) => {
            match Seal::verify_seals_closing(&witness.published, &witness.client, closed, opid) {
                Ok(()) => Ok(()),
                Err(error) => Err(
                    VerificationError::SealsNotClosed(
                        Seal::pub_id(&witness.published),
                        opid,
                        error,
                    ),
                ),
            }
        },
        None => if closed.len() > 0 {
            Err(VerificationError::NoWitness(opid))
        } else {
            Ok(())
        },
    }
}

/// Taking the seals of some inputs and then that of the next one takes those of them all.
proof fn lemma_remove_next<Seal>(
    seals: Map<CellAddress, Seal>,
    addrs: Seq<CellAddress>,
    i: int,
)
    requires
        0 <= i < addrs.len(),
    ensures
        seals.remove_keys(addrs.take(i).to_set()).remove(addrs[i]) == seals.remove_keys(
            addrs.take(i + 1).to_set(),
        ),
{
    let taken = addrs.take(i);
    let next = addrs.take(i + 1);
    assert(next =~= taken.push(addrs[i]));
    assert forall|addr: CellAddress| #[trigger] next.contains(addr) <==> taken.contains(addr) || addr
        == addrs[i] by {
        if taken.contains(addr) {
            let j = choose|j: int| 0 <= j < taken.len() && taken[j] == addr;
            assert(next[j] == addr);
        }
        if addr == addrs[i] {
            assert(next[i] == addr);
        }
        if next.contains(addr) && addr != addrs[i] {
            let j = choose|j: int| 0 <= j < next.len() && next[j] == addr;
            assert(taken[j] == addr);
        }
    }
    assert(seals.remove_keys(addrs.take(i).to_set()).remove(addrs[i]) =~= seals.remove_keys(
        addrs.take(i + 1).to_set(),
    ));
}

} // verus!
