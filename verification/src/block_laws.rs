//! What is proved of the verification of one block, in terms of the block, of the seals which are
//! open before it and after it, and of what the contract answers.
use vstd::prelude::*;

use crate::api::{BlockView, Consulted, ContractApi, ContractCall, Question};
use crate::codex::{CallFailure, Memory};
use crate::error::ErrorView;
use crate::ids::{AuthToken, CellAddress, Opid};
use crate::model::{Answers, Setting, VerifierView};
use crate::operation::OperationView;
use crate::seals::{RgbSeal, RgbSealDef, SealWitness};

verus! {

/// How the parts of a block are named in the model.
proof fn lemma_terms<Seal: RgbSeal>(
    before: VerifierView<Seal>,
    setting: Setting,
    block: BlockView<Seal>,
)
    ensures
        ({
            let identified = block.for_contract(setting, before.is_genesis);
            let inputs = block.operation.destructible_in;
            &&& identified.defined_seals == block.defined_seals
            &&& identified.witness == block.witness
            &&& identified.operation.destructible_out == block.operation.destructible_out
            &&& identified.operation.inputs().len() == inputs.len()
            &&& forall|i: int|
                0 <= i < inputs.len() ==> #[trigger] identified.operation.inputs()[i]
                    == inputs[i].addr
            &&& forall|i: int|
                0 <= i < inputs.len() ==> (#[trigger] identified.holds_seal(before.seals, i)
                    <==> before.seals.contains_key(inputs[i].addr) && forall|j: int|
                    0 <= j < i ==> (#[trigger] inputs[j]).addr != inputs[i].addr)
            &&& identified.definitions_match() <==> forall|pos: u16| #[trigger]
                block.defined_seals.contains_key(pos) ==> pos
                    < block.operation.destructible_out.len()
                    && block.operation.destructible_out[pos as int].auth
                    == block.defined_seals[pos].token()
        }),
{
    let identified = block.for_contract(setting, before.is_genesis);
    let inputs = block.operation.destructible_in;
    let addrs = identified.operation.inputs();
    assert forall|i: int| 0 <= i < inputs.len() implies (#[trigger] identified.holds_seal(
        before.seals,
        i,
    ) <==> before.seals.contains_key(inputs[i].addr) && forall|j: int|
        0 <= j < i ==> (#[trigger] inputs[j]).addr != inputs[i].addr) by {
        assert(addrs[i] == inputs[i].addr);
        let taken = addrs.take(i);
        if taken.contains(addrs[i]) {
            let j = choose|j: int| 0 <= j < taken.len() && taken[j] == addrs[i];
            assert(inputs[j].addr == addrs[j]);
        }
        if exists|j: int| 0 <= j < i && (#[trigger] inputs[j]).addr == inputs[i].addr {
            let j = choose|j: int| 0 <= j < i && (#[trigger] inputs[j]).addr == inputs[i].addr;
            assert(taken[j] == addrs[i]);
        }
    }
    if forall|pos: u16| #[trigger]
        block.defined_seals.contains_key(pos) ==> pos < block.operation.destructible_out.len()
            && block.operation.destructible_out[pos as int].auth
            == block.defined_seals[pos].token() {
        assert(identified.definitions_match());
    }
    if identified.definitions_match() {
        assert forall|pos: u16| #[trigger] block.defined_seals.contains_key(pos) implies pos
            < block.operation.destructible_out.len() && block.operation.destructible_out[pos as int].auth
            == block.defined_seals[pos].token() by {
            assert(identified.defined_seals.contains_key(pos));
        }
    }
}

/// A genesis goes on exactly if its contract id is the same bytes as the codex id, whatever else it
/// consists of: its id is that of the operation with the contract id put into it. Any other
/// operation goes on under the id from the reader, unless the ids are recomputed and it is a wrong
/// one. Where an operation does not go on, nothing is asked, consulted or called.
pub proof fn law_operations_are_identified<Seal: RgbSeal, M: Memory, ReadError>(
    before: VerifierView<Seal>,
    setting: Setting,
    block: BlockView<Seal>,
    memo_opid: Opid,
    answers: Answers<Seal, M>,
)
    ensures
        ({
            let step = before.step::<M, ReadError>(setting, block, memo_opid, answers);
            let identity = block.identity::<ReadError>(setting, before.is_genesis, memo_opid);
            let foreign = block.operation.contract_id.hi != setting.codex_id.hi
                || block.operation.contract_id.lo != setting.codex_id.lo;
            let computed = crate::operation::operation_commitment(block.operation);
            let wrong = setting.memo_check && memo_opid != computed;
            let halted = if before.is_genesis {
                foreign
            } else {
                wrong
            };
            &&& before.is_genesis && !foreign ==> identity == Ok::<
                Opid,
                ErrorView<Seal, ReadError>,
            >(
                crate::operation::operation_commitment(
                    OperationView { contract_id: setting.contract_id, ..block.operation },
                ),
            )
            &&& !before.is_genesis && !wrong ==> identity == Ok::<
                Opid,
                ErrorView<Seal, ReadError>,
            >(memo_opid)
            &&& (identity is Err <==> halted)
            &&& (step.result matches Err(error) && error is NoCodexCommitment)
                <==> before.is_genesis && foreign
            &&& (step.result matches Err(error) && error is OpidMemoMismatch)
                <==> !before.is_genesis && wrong
            &&& step.result matches Err(ErrorView::OpidMemoMismatch { memoized, recomputed })
                ==> memoized == memo_opid && recomputed == computed
            &&& halted ==> step.result is Err && step.questions.len() == 0 && step.consulted.len()
                == 0 && step.calls.len() == 0 && step.applied.len() == 0
        }),
{
}

/// A block which comes with a witness, and of which the contract answers that it knows the
/// operation, the witness and the seal definitions, whichever these are, is accepted as it is: its
/// witness and its definitions are applied, its operation is staged unless it is the genesis, the
/// seals of its inputs are taken, and no more happens.
pub proof fn law_known_block_is_staged<Seal: RgbSeal, M: Memory, ReadError>(
    before: VerifierView<Seal>,
    setting: Setting,
    block: BlockView<Seal>,
    memo_opid: Opid,
    answers: Answers<Seal, M>,
    opid: Opid,
)
    requires
        before.is_genesis ==> block.operation.contract_id.hi == setting.codex_id.hi
            && block.operation.contract_id.lo == setting.codex_id.lo && opid
            == crate::operation::operation_commitment(
            (OperationView { contract_id: setting.contract_id, ..block.operation }),
        ),
        !before.is_genesis ==> opid == memo_opid && (setting.memo_check ==> memo_opid
            == crate::operation::operation_commitment(block.operation)),
        answers.known,
        block.witness is Some,
        answers.witness_known,
        answers.seals_known,
    ensures
        ({
            let step = before.step::<M, ReadError>(setting, block, memo_opid, answers);
            let witness = ContractCall::<Seal>::ApplyWitness(opid, block.witness->0);
            let stage = ContractCall::<Seal>::StageKnownOperation(opid, block.operation);
            let seals = ContractCall::<Seal>::ApplySeals(opid, block.defined_seals);
            let any = exists|pos: u16| block.defined_seals.contains_key(pos);
            &&& step.result is Ok
            &&& step.result->Ok_0.is_genesis == before.is_genesis
            &&& forall|addr: CellAddress| #[trigger]
                step.result->Ok_0.seals.contains_key(addr) <==> before.seals.contains_key(addr)
                    && forall|i: int|
                    0 <= i < block.operation.destructible_in.len() ==> (
                    #[trigger] block.operation.destructible_in[i]).addr != addr
            &&& forall|addr: CellAddress| #[trigger]
                step.result->Ok_0.seals.contains_key(addr) ==> step.result->Ok_0.seals[addr]
                    == before.seals[addr]
            &&& !before.is_genesis && any ==> step.calls == seq![witness, stage, seals]
            &&& !before.is_genesis && !any ==> step.calls == seq![witness, stage]
            &&& before.is_genesis && any ==> step.calls == seq![witness, seals]
            &&& before.is_genesis && !any ==> step.calls == seq![witness]
            &&& any ==> step.applied == seq![witness, seals]
            &&& !any ==> step.applied == seq![witness]
            &&& step.questions == seq![
                Question::WitnessKnown(opid, block.witness->0, true),
                Question::SealsKnown(opid, block.defined_seals, true),
            ]
            &&& step.consulted.len() == 0
        }),
{
    lemma_terms(before, setting, block);
    let step = before.step::<M, ReadError>(setting, block, memo_opid, answers);
    let identified = block.for_contract(setting, before.is_genesis);
    let addrs = identified.operation.inputs();
    assert forall|addr: CellAddress| #[trigger]
        step.result->Ok_0.seals.contains_key(addr) <==> before.seals.contains_key(addr) && forall|
            i: int,
        |
            0 <= i < block.operation.destructible_in.len() ==> (
            #[trigger] block.operation.destructible_in[i]).addr != addr by {
        lemma_taken(block, identified, addr);
    }
    lemma_empty(block.defined_seals);
    let witness = ContractCall::<Seal>::ApplyWitness(opid, block.witness->0);
    let stage = ContractCall::<Seal>::StageKnownOperation(opid, block.operation);
    let seals = ContractCall::<Seal>::ApplySeals(opid, block.defined_seals);
    if exists|pos: u16| block.defined_seals.contains_key(pos) {
        assert(step.applied =~= seq![witness, seals]);
        if before.is_genesis {
            assert(step.calls =~= seq![witness, seals]);
        } else {
            assert(step.calls =~= seq![witness, stage, seals]);
        }
    } else {
        assert(step.applied =~= seq![witness]);
        if before.is_genesis {
            assert(step.calls =~= seq![witness]);
        } else {
            assert(step.calls =~= seq![witness, stage]);
        }
    }
    assert(step.questions =~= seq![
        Question::WitnessKnown(opid, block.witness->0, true),
        Question::SealsKnown(opid, block.defined_seals, true),
    ]);
}

proof fn lemma_taken<Seal: RgbSeal>(
    block: BlockView<Seal>,
    identified: BlockView<Seal>,
    addr: CellAddress,
)
    requires
        identified.operation.inputs().len() == block.operation.destructible_in.len(),
        forall|i: int|
            0 <= i < block.operation.destructible_in.len()
                ==> #[trigger] identified.operation.inputs()[i]
                == block.operation.destructible_in[i].addr,
    ensures
        identified.operation.inputs().to_set().contains(addr) <==> exists|i: int|
            0 <= i < block.operation.destructible_in.len() && (
            #[trigger] block.operation.destructible_in[i]).addr == addr,
{
    let addrs = identified.operation.inputs();
    if addrs.contains(addr) {
        let i = choose|i: int| 0 <= i < addrs.len() && addrs[i] == addr;
        assert(block.operation.destructible_in[i].addr == addr);
    }
    if exists|i: int|
        0 <= i < block.operation.destructible_in.len() && (
        #[trigger] block.operation.destructible_in[i]).addr == addr {
        let i = choose|i: int|
            0 <= i < block.operation.destructible_in.len() && (
            #[trigger] block.operation.destructible_in[i]).addr == addr;
        assert(addrs[i] == addr);
    }
}

proof fn lemma_empty<V>(map: Map<u16, V>)
    ensures
        map == Map::<u16, V>::empty() <==> !(exists|pos: u16| map.contains_key(pos)),
{
    if !(exists|pos: u16| map.contains_key(pos)) {
        assert(map =~= Map::<u16, V>::empty());
    }
}

/// Seal definitions match exactly if each is for an output which is there and is the one which the
/// token of that output commits to.
pub proof fn law_definitions_match_their_outputs<Seal: RgbSeal>(block: BlockView<Seal>)
    ensures
        block.definitions_match() <==> forall|pos: u16| #[trigger]
            block.defined_seals.contains_key(pos) ==> pos < block.operation.destructible_out.len()
                && block.operation.destructible_out[pos as int].auth
                == block.defined_seals[pos].token(),
{
}

/// A block of which not all is known is refused for its seal definitions exactly if one of them is
/// for an output which is not there or is not the one which the token of the output commits to.
/// The error tells the operation, the tokens of the definitions, the tokens of the outputs, and the
/// text of each definition.
pub proof fn law_definitions_are_compared<Seal: RgbSeal, M: Memory, ReadError>(
    before: VerifierView<Seal>,
    setting: Setting,
    block: BlockView<Seal>,
    memo_opid: Opid,
    answers: Answers<Seal, M>,
    opid: Opid,
)
    requires
        before.is_genesis ==> block.operation.contract_id.hi == setting.codex_id.hi
            && block.operation.contract_id.lo == setting.codex_id.lo && opid
            == crate::operation::operation_commitment(
            (OperationView { contract_id: setting.contract_id, ..block.operation }),
        ),
        !before.is_genesis ==> opid == memo_opid && (setting.memo_check ==> memo_opid
            == crate::operation::operation_commitment(block.operation)),
        !(answers.known && block.witness is Some && answers.witness_known && answers.seals_known),
    ensures
        ({
            let step = before.step::<M, ReadError>(setting, block, memo_opid, answers);
            let outputs = block.operation.destructible_out;
            &&& (step.result matches Err(error) && error is SealsDefinitionMismatch) <==> exists|
                pos: u16,
            | #[trigger]
                block.defined_seals.contains_key(pos) && (pos >= outputs.len()
                    || outputs[pos as int].auth != block.defined_seals[pos].token())
            &&& step.result is Ok ==> forall|pos: u16| #[trigger]
                block.defined_seals.contains_key(pos) ==> pos < outputs.len()
                    && outputs[pos as int].auth == block.defined_seals[pos].token()
            &&& step.result matches Err(
                ErrorView::SealsDefinitionMismatch { opid: told, reported, defined, sources },
            ) ==> {
                &&& told == opid
                &&& forall|token: AuthToken| #[trigger]
                    reported.contains(token) <==> exists|pos: u16| #[trigger]
                        block.defined_seals.contains_key(pos) && block.defined_seals[pos].token()
                            == token
                &&& forall|token: AuthToken| #[trigger]
                    defined.contains(token) <==> exists|i: int|
                        0 <= i < outputs.len() && (#[trigger] outputs[i]).auth == token
                &&& forall|pos: u16| #[trigger]
                    sources.contains_key(pos) <==> block.defined_seals.contains_key(pos)
                &&& forall|pos: u16| #[trigger]
                    sources.contains_key(pos) ==> sources[pos] == block.defined_seals[pos].text()
                &&& step.calls.len() == 0
                &&& step.consulted.len() == 0
            }
        }),
{
    lemma_terms(before, setting, block);
    let identified = block.for_contract(setting, before.is_genesis);
    assert(identified.operation.tokens() == block.operation.tokens());
    if !identified.definitions_match() {
        let pos = choose|pos: u16| #[trigger]
            block.defined_seals.contains_key(pos) && !(pos < block.operation.destructible_out.len()
                && block.operation.destructible_out[pos as int].auth
                == block.defined_seals[pos].token());
        assert(block.defined_seals.contains_key(pos));
    }
}

/// An operation whose witness is not known is refused for an unknown seal exactly if there is an
/// input whose seal is not open in the consignment, or is taken by an input before it, and of which
/// the contract knows none either; the error tells the first such input. Where the witness is known
/// there is no such error.
pub proof fn law_seal_of_each_input_is_needed<Seal: RgbSeal, M: Memory, ReadError>(
    before: VerifierView<Seal>,
    setting: Setting,
    block: BlockView<Seal>,
    memo_opid: Opid,
    answers: Answers<Seal, M>,
    opid: Opid,
)
    requires
        before.is_genesis ==> block.operation.contract_id.hi == setting.codex_id.hi
            && block.operation.contract_id.lo == setting.codex_id.lo && opid
            == crate::operation::operation_commitment(
            (OperationView { contract_id: setting.contract_id, ..block.operation }),
        ),
        !before.is_genesis ==> opid == memo_opid && (setting.memo_check ==> memo_opid
            == crate::operation::operation_commitment(block.operation)),
        forall|pos: u16| #[trigger]
            block.defined_seals.contains_key(pos) ==> pos < block.operation.destructible_out.len()
                && block.operation.destructible_out[pos as int].auth
                == block.defined_seals[pos].token(),
    ensures
        ({
            let step = before.step::<M, ReadError>(setting, block, memo_opid, answers);
            let known_witness = answers.known && block.witness is Some && answers.witness_known;
            &&& (step.result matches Err(error) && error is SealUnknown) <==> !known_witness && exists|
                i: int,
            |
                0 <= i < block.operation.destructible_in.len() && (#[trigger] answers.known_seals[i]) is None
                    && !(before.seals.contains_key(
                    block.operation.destructible_in[i].addr,
                ) && forall|j: int|
                    0 <= j < i ==> (#[trigger] block.operation.destructible_in[j]).addr
                        != block.operation.destructible_in[i].addr)
            &&& forall|i: int|
                0 <= i < block.operation.destructible_in.len() && !known_witness && (
                #[trigger] answers.known_seals[i]) is None && !(before.seals.contains_key(
                    block.operation.destructible_in[i].addr,
                ) && forall|j: int|
                    0 <= j < i ==> (#[trigger] block.operation.destructible_in[j]).addr
                        != block.operation.destructible_in[i].addr)
                    && (forall|k: int|
                    0 <= k < i && (#[trigger] answers.known_seals[k]) is None
                        ==> (before.seals.contains_key(
                    block.operation.destructible_in[k].addr,
                ) && forall|j: int|
                    0 <= j < k ==> (#[trigger] block.operation.destructible_in[j]).addr
                        != block.operation.destructible_in[k].addr)) ==> step.result == Err::<
                    VerifierView<Seal>,
                    ErrorView<Seal, ReadError>,
                >(ErrorView::SealUnknown(block.operation.destructible_in[i].addr))
            &&& (step.result matches Err(error) && error is SealUnknown) ==> step.consulted.len()
                == 0
        }),
{
    lemma_terms(before, setting, block);
    let step = before.step::<M, ReadError>(setting, block, memo_opid, answers);
    let identified = block.for_contract(setting, before.is_genesis);
    let inputs = block.operation.destructible_in;
    let known_witness = answers.known && block.witness is Some && answers.witness_known;
    if !known_witness {
        if exists|i: int| identified.first_unclaimed(before.seals, answers.known_seals, i) {
            let i = choose|i: int| identified.first_unclaimed(before.seals, answers.known_seals, i);
            assert(identified.claimed(before.seals, answers.known_seals, i) is None);
            assert(!identified.holds_seal(before.seals, i));
            assert(answers.known_seals[i] is None);
        } else {
            assert forall|i: int| 0 <= i < inputs.len() implies #[trigger] identified.claimed(
                before.seals,
                answers.known_seals,
                i,
            ) is Some by {
                lemma_claimed(identified, before.seals, answers.known_seals, i);
            }
            assert forall|i: int|
                0 <= i < inputs.len() && (#[trigger] answers.known_seals[i]) is None implies
                identified.holds_seal(before.seals, i) by {
                assert(identified.claimed(before.seals, answers.known_seals, i) is Some);
            }
        }
        assert forall|i: int|
            0 <= i < inputs.len() && (#[trigger] answers.known_seals[i]) is None
                && !identified.holds_seal(before.seals, i) && (forall|k: int|
                0 <= k < i && (#[trigger] answers.known_seals[k]) is None ==> (before.seals.contains_key(
                    block.operation.destructible_in[k].addr,
                ) && forall|j: int|
                    0 <= j < k ==> (#[trigger] block.operation.destructible_in[j]).addr
                        != block.operation.destructible_in[k].addr)) implies step.result == Err::<VerifierView<Seal>, ErrorView<Seal, ReadError>>(
            ErrorView::SealUnknown(inputs[i].addr),
        ) by {
            assert forall|k: int| 0 <= k < i implies #[trigger] identified.claimed(
                before.seals,
                answers.known_seals,
                k,
            ) is Some by {
                if answers.known_seals[k] is None {
                    assert(identified.holds_seal(before.seals, k));
                }
            }
            assert(identified.first_unclaimed(before.seals, answers.known_seals, i));
            identified.lemma_first_unclaimed(before.seals, answers.known_seals, i);
            assert(identified.operation.inputs()[i] == inputs[i].addr);
        }
    }
}

/// Where no input is the first whose seal is unknown, that of each is known.
proof fn lemma_claimed<Seal: RgbSeal>(
    block: BlockView<Seal>,
    seals: Map<CellAddress, Seal>,
    known_seals: Seq<Option<Seal>>,
    i: int,
)
    requires
        forall|i: int| !(#[trigger] block.first_unclaimed(seals, known_seals, i)),
        0 <= i < block.operation.inputs().len(),
    ensures
        block.claimed(seals, known_seals, i) is Some,
    decreases i,
{
    assert forall|j: int| 0 <= j < i implies #[trigger] block.claimed(seals, known_seals, j) is Some by {
        lemma_claimed(block, seals, known_seals, j);
    }
    assert(!block.first_unclaimed(seals, known_seals, i));
}

/// The codex is asked of an operation exactly if it is not known, once its seal definitions and the
/// seals of its inputs are in order, and the operation is refused with its failure exactly if it
/// finds one. Of a known operation it is never asked.
pub proof fn law_new_operation_is_verified<Seal: RgbSeal, M: Memory, ReadError>(
    before: VerifierView<Seal>,
    setting: Setting,
    block: BlockView<Seal>,
    memo_opid: Opid,
    answers: Answers<Seal, M>,
    opid: Opid,
)
    requires
        before.is_genesis ==> block.operation.contract_id.hi == setting.codex_id.hi
            && block.operation.contract_id.lo == setting.codex_id.lo && opid
            == crate::operation::operation_commitment(
            (OperationView { contract_id: setting.contract_id, ..block.operation }),
        ),
        !before.is_genesis ==> opid == memo_opid && (setting.memo_check ==> memo_opid
            == crate::operation::operation_commitment(block.operation)),
        forall|pos: u16| #[trigger]
            block.defined_seals.contains_key(pos) ==> pos < block.operation.destructible_out.len()
                && block.operation.destructible_out[pos as int].auth
                == block.defined_seals[pos].token(),
        answers.known && block.witness is Some && answers.witness_known || forall|i: int|
            0 <= i < block.operation.destructible_in.len() && (#[trigger] answers.known_seals[i]) is None
                ==> (before.seals.contains_key(
                    block.operation.destructible_in[i].addr,
                ) && forall|j: int|
                    0 <= j < i ==> (#[trigger] block.operation.destructible_in[j]).addr
                        != block.operation.destructible_in[i].addr),
    ensures
        ({
            let step = before.step::<M, ReadError>(setting, block, memo_opid, answers);
            &&& (step.result matches Err(error) && error is Vm) <==> !answers.known
                && answers.verdict is Err
            &&& !answers.known ==> (answers.verdict matches Err(failure) ==> step.result == Err::<
                VerifierView<Seal>,
                ErrorView<Seal, ReadError>,
            >(ErrorView::Vm(failure)))
            &&& !answers.known ==> step.consulted == seq![
                Consulted::Memory,
                Consulted::Codex,
                Consulted::Repo,
            ]
            &&& answers.known ==> step.consulted.len() == 0
        }),
{
    lemma_terms(before, setting, block);
    lemma_none_unclaimed(before, setting, block, answers);
}

proof fn lemma_none_unclaimed<Seal: RgbSeal, M: Memory>(
    before: VerifierView<Seal>,
    setting: Setting,
    block: BlockView<Seal>,
    answers: Answers<Seal, M>,
)
    ensures
        ({
            let identified = block.for_contract(setting, before.is_genesis);
            (forall|i: int|
                0 <= i < block.operation.destructible_in.len() && (#[trigger] answers.known_seals[i]) is None
                    ==> (before.seals.contains_key(
                    block.operation.destructible_in[i].addr,
                ) && forall|j: int|
                    0 <= j < i ==> (#[trigger] block.operation.destructible_in[j]).addr
                        != block.operation.destructible_in[i].addr)) ==> forall|i: int|
                !(#[trigger] identified.first_unclaimed(before.seals, answers.known_seals, i))
        }),
{
    lemma_terms(before, setting, block);
    let identified = block.for_contract(setting, before.is_genesis);
    if forall|i: int|
        0 <= i < block.operation.destructible_in.len() && (#[trigger] answers.known_seals[i]) is None
            ==> (before.seals.contains_key(
                    block.operation.destructible_in[i].addr,
                ) && forall|j: int|
                    0 <= j < i ==> (#[trigger] block.operation.destructible_in[j]).addr
                        != block.operation.destructible_in[i].addr) {
        assert forall|i: int| !(#[trigger] identified.first_unclaimed(
            before.seals,
            answers.known_seals,
            i,
        )) by {
            if identified.first_unclaimed(before.seals, answers.known_seals, i) {
                assert(identified.claimed(before.seals, answers.known_seals, i) is None);
                assert(!identified.holds_seal(before.seals, i));
                assert(answers.known_seals[i] is None);
            }
        }
    }
}

/// A block in order, whose witness is not known, is accepted exactly if the witness closes, over the
/// operation, the seals of all its inputs, one for each and in their order: the one which is open
/// in the consignment at the address of the input and which no input before it takes, else the one
/// which the contract has answered. Without a witness it is accepted exactly if it has no input.
pub proof fn law_witness_closes_the_seals_of_all_inputs<Seal: RgbSeal, M: Memory, ReadError>(
    before: VerifierView<Seal>,
    setting: Setting,
    block: BlockView<Seal>,
    memo_opid: Opid,
    answers: Answers<Seal, M>,
    opid: Opid,
    closed: Seq<Seal>,
)
    requires
        before.is_genesis ==> block.operation.contract_id.hi == setting.codex_id.hi
            && block.operation.contract_id.lo == setting.codex_id.lo && opid
            == crate::operation::operation_commitment(
            (OperationView { contract_id: setting.contract_id, ..block.operation }),
        ),
        !before.is_genesis ==> opid == memo_opid && (setting.memo_check ==> memo_opid
            == crate::operation::operation_commitment(block.operation)),
        forall|pos: u16| #[trigger]
            block.defined_seals.contains_key(pos) ==> pos < block.operation.destructible_out.len()
                && block.operation.destructible_out[pos as int].auth
                == block.defined_seals[pos].token(),
        !(answers.known && block.witness is Some && answers.witness_known),
        answers.known || answers.verdict is Ok,
        closed.len() == block.operation.destructible_in.len(),
        forall|i: int|
            #![trigger closed[i]]
            0 <= i < block.operation.destructible_in.len() ==> (if (before.seals.contains_key(
                    block.operation.destructible_in[i].addr,
                ) && forall|j: int|
                    0 <= j < i ==> (#[trigger] block.operation.destructible_in[j]).addr
                        != block.operation.destructible_in[i].addr) {
                    closed[i] == before.seals[block.operation.destructible_in[i].addr]
                } else {
                    answers.known_seals[i] == Some(closed[i])
                }),
    ensures
        ({
            let step = before.step::<M, ReadError>(setting, block, memo_opid, answers);
            match block.witness {
                Some(witness) => match Seal::closing(
                    witness.published,
                    witness.client,
                    closed,
                    opid,
                ) {
                    Ok(()) => step.result is Ok,
                    Err(error) => step.result == Err::<
                        VerifierView<Seal>,
                        ErrorView<Seal, ReadError>,
                    >(
                        ErrorView::SealsNotClosed(
                            Seal::publication(witness.published),
                            opid,
                            error,
                        ),
                    ),
                },
                None => if block.operation.destructible_in.len() > 0 {
                    step.result == Err::<VerifierView<Seal>, ErrorView<Seal, ReadError>>(
                        ErrorView::NoWitness(opid),
                    )
                } else {
                    step.result is Ok
                },
            }
        }),
{
    lemma_terms(before, setting, block);
    let identified = block.for_contract(setting, before.is_genesis);
    let inputs = block.operation.destructible_in;
    assert forall|i: int| 0 <= i < inputs.len() implies #[trigger] identified.claimed(
        before.seals,
        answers.known_seals,
        i,
    ) == Some(closed[i]) by {
        assert(inputs[i].addr == identified.operation.inputs()[i]);
        assert(identified.holds_seal(before.seals, i) || answers.known_seals[i] == Some(closed[i]));
    }
    assert forall|i: int| !(#[trigger] identified.first_unclaimed(
        before.seals,
        answers.known_seals,
        i,
    )) by {
        if 0 <= i < inputs.len() {
            assert(identified.claimed(before.seals, answers.known_seals, i) == Some(closed[i]));
        }
    }
    assert(identified.closed_seals(before.seals, answers.known_seals) =~= closed);
}

/// Of every accepted block whose witness is not known there is a list of seals, one for each input
/// and each the one open in the consignment or else the one which the contract has answered, which
/// the witness closes over the operation; without a witness there is no input.
pub proof fn law_accepted_block_closes_all_inputs<Seal: RgbSeal, M: Memory, ReadError>(
    before: VerifierView<Seal>,
    setting: Setting,
    block: BlockView<Seal>,
    memo_opid: Opid,
    answers: Answers<Seal, M>,
    opid: Opid,
) -> (closed: Seq<Seal>)
    requires
        before.is_genesis ==> block.operation.contract_id.hi == setting.codex_id.hi
            && block.operation.contract_id.lo == setting.codex_id.lo && opid
            == crate::operation::operation_commitment(
            (OperationView { contract_id: setting.contract_id, ..block.operation }),
        ),
        !before.is_genesis ==> opid == memo_opid && (setting.memo_check ==> memo_opid
            == crate::operation::operation_commitment(block.operation)),
        !(answers.known && block.witness is Some && answers.witness_known),
        before.step::<M, ReadError>(setting, block, memo_opid, answers).result is Ok,
    ensures
        closed.len() == block.operation.destructible_in.len(),
        forall|i: int|
            #![trigger closed[i]]
            0 <= i < block.operation.destructible_in.len() ==> (if (before.seals.contains_key(
                    block.operation.destructible_in[i].addr,
                ) && forall|j: int|
                    0 <= j < i ==> (#[trigger] block.operation.destructible_in[j]).addr
                        != block.operation.destructible_in[i].addr) {
                    closed[i] == before.seals[block.operation.destructible_in[i].addr]
                } else {
                    answers.known_seals[i] == Some(closed[i])
                }),
        block.witness matches Some(witness) ==> Seal::closing(
            witness.published,
            witness.client,
            closed,
            opid,
        ) is Ok,
        block.witness is None ==> block.operation.destructible_in.len() == 0,
        answers.known || answers.verdict is Ok,
{
    lemma_terms(before, setting, block);
    let identified = block.for_contract(setting, before.is_genesis);
    let inputs = block.operation.destructible_in;
    let closed = identified.closed_seals(before.seals, answers.known_seals);
    assert forall|i: int|
        #![trigger closed[i]]
        0 <= i < inputs.len() implies (if (before.seals.contains_key(
                    block.operation.destructible_in[i].addr,
                ) && forall|j: int|
                    0 <= j < i ==> (#[trigger] block.operation.destructible_in[j]).addr
                        != block.operation.destructible_in[i].addr) {
                    closed[i] == before.seals[block.operation.destructible_in[i].addr]
                } else {
                    answers.known_seals[i] == Some(closed[i])
                }) by {
        lemma_claimed(identified, before.seals, answers.known_seals, i);
        assert(identified.claimed(before.seals, answers.known_seals, i) is Some);
        assert(identified.operation.inputs()[i] == inputs[i].addr);
        assert(identified.holds_seal(before.seals, i) || answers.known_seals[i] is Some);
    }
    closed
}

/// Where the operation and its witness are known, the block is accepted exactly if its seal
/// definitions are in order, or known too; neither the seals of the inputs nor the codex nor the
/// witness matter.
pub proof fn law_known_witness_is_enough<Seal: RgbSeal, M: Memory, ReadError>(
    before: VerifierView<Seal>,
    setting: Setting,
    block: BlockView<Seal>,
    memo_opid: Opid,
    answers: Answers<Seal, M>,
    opid: Opid,
)
    requires
        before.is_genesis ==> block.operation.contract_id.hi == setting.codex_id.hi
            && block.operation.contract_id.lo == setting.codex_id.lo && opid
            == crate::operation::operation_commitment(
            (OperationView { contract_id: setting.contract_id, ..block.operation }),
        ),
        !before.is_genesis ==> opid == memo_opid && (setting.memo_check ==> memo_opid
            == crate::operation::operation_commitment(block.operation)),
        answers.known,
        block.witness is Some,
        answers.witness_known,
    ensures
        before.step::<M, ReadError>(setting, block, memo_opid, answers).result is Ok <==> answers.seals_known || forall|pos: u16| #[trigger]
            block.defined_seals.contains_key(pos) ==> pos < block.operation.destructible_out.len()
                && block.operation.destructible_out[pos as int].auth
                == block.defined_seals[pos].token(),
{
    lemma_terms(before, setting, block);
}

/// After an accepted block of which not all is known, be its operation known or not, each of its
/// seal definitions has its seal open for the output it is for: the one which the definition tells
/// by itself, else the one resolved with the witness. At every other address there is a seal exactly
/// if there was one which no input has taken, and it is the same. No later block is the genesis.
pub proof fn law_defined_seals_are_opened<Seal: RgbSeal, M: Memory, ReadError>(
    before: VerifierView<Seal>,
    setting: Setting,
    block: BlockView<Seal>,
    memo_opid: Opid,
    answers: Answers<Seal, M>,
    opid: Opid,
    addr: CellAddress,
)
    requires
        before.is_genesis ==> block.operation.contract_id.hi == setting.codex_id.hi
            && block.operation.contract_id.lo == setting.codex_id.lo && opid
            == crate::operation::operation_commitment(
            (OperationView { contract_id: setting.contract_id, ..block.operation }),
        ),
        !before.is_genesis ==> opid == memo_opid && (setting.memo_check ==> memo_opid
            == crate::operation::operation_commitment(block.operation)),
        !(answers.known && block.witness is Some && answers.witness_known && answers.seals_known),
        before.step::<M, ReadError>(setting, block, memo_opid, answers).result is Ok,
    ensures
        ({
            let after = before.step::<M, ReadError>(setting, block, memo_opid, answers).result->Ok_0;
            let definition = block.defined_seals[addr.pos];
            let defined = addr.opid == opid && block.defined_seals.contains_key(addr.pos);
            let taken = exists|i: int|
                0 <= i < block.operation.destructible_in.len() && (
                #[trigger] block.operation.destructible_in[i]).addr == addr;
            &&& !after.is_genesis
            &&& defined && definition.src() is Some ==> after.seals.contains_key(addr)
                && after.seals[addr] == definition.src()->0
            &&& defined && definition.src() is None && block.witness is Some
                ==> after.seals.contains_key(addr) && after.seals[addr] == definition.resolved(
                Seal::publication(block.witness->0.published),
            )
            &&& !defined || definition.src() is None && block.witness is None ==> {
                &&& after.seals.contains_key(addr) <==> before.seals.contains_key(addr) && !taken
                &&& after.seals.contains_key(addr) ==> after.seals[addr] == before.seals[addr]
            }
        }),
{
    lemma_terms(before, setting, block);
    let identified = block.for_contract(setting, before.is_genesis);
    lemma_taken(block, identified, addr);
}

/// An accepted block of which not all is known makes these calls and no others, in this order: that
/// of the witness if there is one, that of the operation if it is neither known nor the genesis, and
/// that of the seal definitions if there are any. All of them are applied.
pub proof fn law_calls_of_accepted_block<Seal: RgbSeal, M: Memory, ReadError>(
    before: VerifierView<Seal>,
    setting: Setting,
    block: BlockView<Seal>,
    memo_opid: Opid,
    answers: Answers<Seal, M>,
    opid: Opid,
)
    requires
        before.is_genesis ==> block.operation.contract_id.hi == setting.codex_id.hi
            && block.operation.contract_id.lo == setting.codex_id.lo && opid
            == crate::operation::operation_commitment(
            (OperationView { contract_id: setting.contract_id, ..block.operation }),
        ),
        !before.is_genesis ==> opid == memo_opid && (setting.memo_check ==> memo_opid
            == crate::operation::operation_commitment(block.operation)),
        !(answers.known && block.witness is Some && answers.witness_known && answers.seals_known),
        before.step::<M, ReadError>(setting, block, memo_opid, answers).result is Ok,
    ensures
        ({
            let step = before.step::<M, ReadError>(setting, block, memo_opid, answers);
            let witness = if block.witness is Some {
                seq![ContractCall::<Seal>::ApplyWitness(opid, block.witness->0)]
            } else {
                seq![]
            };
            let operation = if !answers.known && !before.is_genesis {
                seq![
                    ContractCall::<Seal>::ApplyOperation(answers.verdict->Ok_0, block.operation),
                ]
            } else {
                seq![]
            };
            let seals = if exists|pos: u16| block.defined_seals.contains_key(pos) {
                seq![ContractCall::<Seal>::ApplySeals(opid, block.defined_seals)]
            } else {
                seq![]
            };
            step.calls == witness + operation + seals && step.applied == step.calls
        }),
{
    lemma_terms(before, setting, block);
    lemma_empty(block.defined_seals);
}

/// The contract is asked whether it knows the witness exactly if it knows the operation and there is
/// a witness, and then whether it knows the seal definitions exactly if it knows the witness. Where
/// the witness is known, or the seal definitions are not in order, nothing more is asked.
pub proof fn law_questions_on_known_data<Seal: RgbSeal, M: Memory, ReadError>(
    before: VerifierView<Seal>,
    setting: Setting,
    block: BlockView<Seal>,
    memo_opid: Opid,
    answers: Answers<Seal, M>,
    opid: Opid,
)
    requires
        before.is_genesis ==> block.operation.contract_id.hi == setting.codex_id.hi
            && block.operation.contract_id.lo == setting.codex_id.lo && opid
            == crate::operation::operation_commitment(
            (OperationView { contract_id: setting.contract_id, ..block.operation }),
        ),
        !before.is_genesis ==> opid == memo_opid && (setting.memo_check ==> memo_opid
            == crate::operation::operation_commitment(block.operation)),
    ensures
        ({
            let asked = before.step::<M, ReadError>(setting, block, memo_opid, answers).questions;
            let ask_witness = answers.known && block.witness is Some;
            let ask_seals = ask_witness && answers.witness_known;
            let n: int = if ask_seals {
                2
            } else if ask_witness {
                1
            } else {
                0
            };
            &&& asked.len() >= n
            &&& ask_witness ==> asked[0] == Question::WitnessKnown(
                opid,
                block.witness->0,
                answers.witness_known,
            )
            &&& ask_seals ==> asked[1] == Question::<Seal>::SealsKnown(
                opid,
                block.defined_seals,
                answers.seals_known,
            )
            &&& forall|k: int| n <= k < asked.len() ==> (#[trigger] asked[k]) is KnownSeal
            &&& ask_seals ==> asked.len() == n
            &&& (exists|pos: u16| #[trigger]
                block.defined_seals.contains_key(pos) && (pos
                    >= block.operation.destructible_out.len()
                    || block.operation.destructible_out[pos as int].auth
                    != block.defined_seals[pos].token())) ==> asked.len() == n
        }),
{
    lemma_terms(before, setting, block);
    let identified = block.for_contract(setting, before.is_genesis);
    let known = identified.known_questions(opid, answers);
    let m = identified.looked_up(before.seals, answers.known_seals);
    lemma_seal_questions_ask_seals(identified, before.seals, answers.known_seals, m);
    let asked = before.step::<M, ReadError>(setting, block, memo_opid, answers).questions;
    assert forall|k: int| known.len() <= k < asked.len() implies (#[trigger] asked[k]) is KnownSeal by {
        let seals = identified.seal_questions(before.seals, answers.known_seals, m);
        assert(asked[k] == seals[k - known.len()]);
    }
}

proof fn lemma_seal_questions_ask_seals<Seal: RgbSeal>(
    block: BlockView<Seal>,
    seals: Map<CellAddress, Seal>,
    known_seals: Seq<Option<Seal>>,
    n: nat,
)
    ensures
        forall|k: int|
            0 <= k < block.seal_questions(seals, known_seals, n).len() ==> (
            #[trigger] block.seal_questions(seals, known_seals, n)[k]) is KnownSeal,
    decreases n,
{
    if n > 0 {
        lemma_seal_questions_ask_seals(block, seals, known_seals, (n - 1) as nat);
    }
}

/// Where the witness is not known and the seal definitions are in order, the contract is asked, in
/// the order of the inputs, for the seal of each input which the consignment doesn't have, up to the
/// first one of which it knows none: `asks` are the numbers of those inputs.
pub proof fn law_questions_for_seals<Seal: RgbSeal, M: Memory, ReadError>(
    before: VerifierView<Seal>,
    setting: Setting,
    block: BlockView<Seal>,
    memo_opid: Opid,
    answers: Answers<Seal, M>,
    opid: Opid,
) -> (asks: Seq<int>)
    requires
        before.is_genesis ==> block.operation.contract_id.hi == setting.codex_id.hi
            && block.operation.contract_id.lo == setting.codex_id.lo && opid
            == crate::operation::operation_commitment(
            (OperationView { contract_id: setting.contract_id, ..block.operation }),
        ),
        !before.is_genesis ==> opid == memo_opid && (setting.memo_check ==> memo_opid
            == crate::operation::operation_commitment(block.operation)),
        forall|pos: u16| #[trigger]
            block.defined_seals.contains_key(pos) ==> pos < block.operation.destructible_out.len()
                && block.operation.destructible_out[pos as int].auth
                == block.defined_seals[pos].token(),
        !(answers.known && block.witness is Some && answers.witness_known),
    ensures
        ({
            let asked = before.step::<M, ReadError>(setting, block, memo_opid, answers).questions;
            let n: int = if answers.known && block.witness is Some {
                1
            } else {
                0
            };
            &&& asked.len() == n + asks.len()
            &&& forall|k: int|
                0 <= k < asks.len() ==> {
                    &&& 0 <= #[trigger] asks[k] < block.operation.destructible_in.len()
                    &&& asked[n + k] == Question::<Seal>::KnownSeal(
                        block.operation.destructible_in[asks[k]].addr,
                        answers.known_seals[asks[k]],
                    )
                    &&& k < asks.len() - 1 ==> answers.known_seals[asks[k]] is Some
                }
            &&& forall|k: int, l: int| 0 <= k < l < asks.len() ==> asks[k] < asks[l]
            &&& forall|k: int|
                0 <= k < asks.len() ==> 0 <= #[trigger] asks[k] && !(before.seals.contains_key(
                    block.operation.destructible_in[asks[k]].addr,
                ) && forall|j: int|
                    0 <= j < asks[k] ==> (#[trigger] block.operation.destructible_in[j]).addr
                        != block.operation.destructible_in[asks[k]].addr)
            &&& forall|i: int|
                0 <= i < block.operation.destructible_in.len() && !(before.seals.contains_key(
                    block.operation.destructible_in[i].addr,
                ) && forall|j: int|
                    0 <= j < i ==> (#[trigger] block.operation.destructible_in[j]).addr
                        != block.operation.destructible_in[i].addr) && (forall|k: int|
                    0 <= k < asks.len() && #[trigger] asks[k] < i
                        ==> answers.known_seals[asks[k]] is Some) ==> #[trigger] asks.contains(i)
        }),
{
    lemma_terms(before, setting, block);
    let identified = block.for_contract(setting, before.is_genesis);
    let inputs = block.operation.destructible_in;
    let known = identified.known_questions(opid, answers);
    let m = identified.looked_up(before.seals, answers.known_seals);
    if exists|i: int| identified.first_unclaimed(before.seals, answers.known_seals, i) {
        let i = choose|i: int| identified.first_unclaimed(before.seals, answers.known_seals, i);
        assert(identified.first_unclaimed(before.seals, answers.known_seals, i));
        assert(identified.claimed(before.seals, answers.known_seals, i) is None);
    }
    let seals = identified.seal_questions(before.seals, answers.known_seals, m);
    let asks = lemma_asks(identified, before.seals, answers.known_seals, m);
    let asked = before.step::<M, ReadError>(setting, block, memo_opid, answers).questions;
    assert(asked =~= known + seals);
    assert forall|k: int| 0 <= k < asks.len() implies {
        &&& 0 <= #[trigger] asks[k] < inputs.len()
        &&& asked[known.len() + k] == Question::<Seal>::KnownSeal(
            inputs[asks[k]].addr,
            answers.known_seals[asks[k]],
        )
        &&& k < asks.len() - 1 ==> answers.known_seals[asks[k]] is Some
    } by {
        assert(asked[known.len() + k] == seals[k]);
        assert(identified.operation.inputs()[asks[k]] == inputs[asks[k]].addr);
        if k < asks.len() - 1 {
            assert(asks[k] < asks[k + 1]);
            if exists|i: int| identified.first_unclaimed(before.seals, answers.known_seals, i) {
            } else {
                lemma_claimed(identified, before.seals, answers.known_seals, asks[k]);
            }
            assert(identified.claimed(before.seals, answers.known_seals, asks[k]) is Some);
        }
    }
    assert forall|i: int|
        0 <= i < inputs.len() && !(before.seals.contains_key(
                    block.operation.destructible_in[i].addr,
                ) && forall|j: int|
                    0 <= j < i ==> (#[trigger] block.operation.destructible_in[j]).addr
                        != block.operation.destructible_in[i].addr) && (forall|k: int|
            0 <= k < asks.len() && #[trigger] asks[k] < i
                ==> answers.known_seals[asks[k]] is Some) implies #[trigger] asks.contains(i) by {
        assert(!identified.holds_seal(before.seals, i));
        if i >= m {
            let u = choose|u: int| identified.first_unclaimed(before.seals, answers.known_seals, u);
            assert(!identified.holds_seal(before.seals, u));
            assert(asks.contains(u));
            let k = choose|k: int| 0 <= k < asks.len() && asks[k] == u;
            assert(asks[k] < i);
        }
    }
    asks
}

/// The numbers of the first inputs whose seals the contract is asked for.
proof fn lemma_asks<Seal: RgbSeal>(
    block: BlockView<Seal>,
    seals: Map<CellAddress, Seal>,
    known_seals: Seq<Option<Seal>>,
    n: nat,
) -> (asks: Seq<int>)
    ensures
        ({
            let asked = block.seal_questions(seals, known_seals, n);
            &&& asked.len() == asks.len()
            &&& forall|k: int|
                0 <= k < asks.len() ==> {
                    &&& 0 <= #[trigger] asks[k] < n
                    &&& !block.holds_seal(seals, asks[k])
                    &&& asked[k] == Question::<Seal>::KnownSeal(
                        block.operation.inputs()[asks[k]],
                        known_seals[asks[k]],
                    )
                }
            &&& forall|k: int, l: int| 0 <= k < l < asks.len() ==> asks[k] < asks[l]
            &&& forall|i: int|
                0 <= i < n && !#[trigger] block.holds_seal(seals, i) ==> asks.contains(i)
        }),
    decreases n,
{
    if n == 0 {
        seq![]
    } else {
        let i = n - 1;
        let before = lemma_asks(block, seals, known_seals, i as nat);
        if block.holds_seal(seals, i) {
            before
        } else {
            let asks = before.push(i);
            assert forall|j: int|
                0 <= j < n && !#[trigger] block.holds_seal(seals, j) implies asks.contains(j) by {
                if j == i {
                    assert(asks[before.len() as int] == j);
                } else {
                    let k = choose|k: int| 0 <= k < before.len() && before[k] == j;
                    assert(asks[k] == j);
                }
            }
            asks
        }
    }
}

/// The verification of a block returns what it comes to, carries the seals it comes to, and applies
/// to the contract what it comes to and nothing else. The contract keeps its id and its rules; only
/// cells which an applied operation defines become spendable; where nothing is called the cells
/// stay, and where nothing is asked either the contract is left alone.
pub proof fn law_block_comes_to_this<Seal: RgbSeal, C: ContractApi<Seal>, ReadError>(
    setting: Setting,
    before: (VerifierView<Seal>, C),
    after: (VerifierView<Seal>, C),
    block: BlockView<Seal>,
    memo_opid: Opid,
    answers: Answers<Seal, C::Memory>,
    result: Result<(), ErrorView<Seal, ReadError>>,
)
    requires
        crate::verify::block_verified(setting, before, after, block, memo_opid, answers, result),
    ensures
        ({
            let step = before.0.step::<C::Memory, ReadError>(setting, block, memo_opid, answers);
            &&& result is Ok <==> step.result is Ok
            &&& result is Ok ==> after.0 == step.result->Ok_0
            &&& result is Err ==> result->Err_0 == step.result->Err_0
            &&& after.1.history() == before.1.history() + step.applied
            &&& after.1.id() == before.1.id()
            &&& after.1.rules() == before.1.rules()
            &&& after.1.libraries() == before.1.libraries()
            &&& forall|addr: CellAddress| #[trigger]
                after.1.spendable().contains(addr) ==> before.1.spendable().contains(addr)
                    || exists|k: int|
                    0 <= k < step.applied.len() && (
                    #[trigger] step.applied[k] matches ContractCall::ApplyOperation(opid, operation)
                        && opid == addr.opid && addr.pos < operation.destructible_out.len())
            &&& step.calls.len() == 0 ==> after.1.cells() == before.1.cells()
                && after.1.spendable() == before.1.spendable()
            &&& step.questions.len() == 0 && step.calls.len() == 0 ==> after.1 == before.1
        }),
{
}

/// That an operation is known is what the contract says. A witness, seal definitions or a seal are
/// taken as known only if they have been applied before: this very witness for the operation, each
/// definition for the same output, and for a seal a definition for its cell which tells it or from
/// which it is resolved with a witness applied for the operation.
pub proof fn law_known_data_have_been_applied<Seal: RgbSeal, C: ContractApi<Seal>, ReadError>(
    setting: Setting,
    before: (VerifierView<Seal>, C),
    after: (VerifierView<Seal>, C),
    block: BlockView<Seal>,
    memo_opid: Opid,
    answers: Answers<Seal, C::Memory>,
    result: Result<(), ErrorView<Seal, ReadError>>,
    opid: Opid,
)
    requires
        crate::verify::block_verified(setting, before, after, block, memo_opid, answers, result),
        before.0.is_genesis ==> block.operation.contract_id.hi == setting.codex_id.hi
            && block.operation.contract_id.lo == setting.codex_id.lo && opid
            == crate::operation::operation_commitment(
            (OperationView { contract_id: setting.contract_id, ..block.operation }),
        ),
        !before.0.is_genesis ==> opid == memo_opid && (setting.memo_check ==> memo_opid
            == crate::operation::operation_commitment(block.operation)),
    ensures
        answers.known == before.1.knows(opid),
        answers.known && block.witness is Some && answers.witness_known ==> exists|k: int|
            0 <= k < before.1.history().len() && #[trigger] before.1.history()[k]
                == ContractCall::ApplyWitness(opid, block.witness->0),
        answers.known && block.witness is Some && answers.witness_known && answers.seals_known
            ==> forall|pos: u16| #[trigger]
            block.defined_seals.contains_key(pos) ==> exists|k: int|
                0 <= k < before.1.history().len() && (
                #[trigger] before.1.history()[k] matches ContractCall::ApplySeals(applied, seals)
                    && applied == opid && seals.contains_key(pos) && seals[pos]
                    == block.defined_seals[pos]),
{
    assert(block.identity::<()>(setting, before.0.is_genesis, memo_opid) == Ok::<
        Opid,
        ErrorView<Seal, ()>,
    >(opid));
    let history = before.1.history();
    if answers.known && block.witness is Some && answers.witness_known {
        let call = ContractCall::ApplyWitness(opid, block.witness->0);
        assert(history.contains(call));
        let k = choose|k: int| 0 <= k < history.len() && history[k] == call;
        assert(history[k] == call);
        if answers.seals_known {
            assert forall|pos: u16| #[trigger] block.defined_seals.contains_key(pos) implies exists|
                k: int,
            |
                0 <= k < history.len() && (#[trigger] history[k] matches ContractCall::ApplySeals(
                    applied,
                    seals,
                ) && applied == opid && seals.contains_key(pos) && seals[pos]
                    == block.defined_seals[pos]) by {
                assert(crate::api::definition_applied(
                    history,
                    CellAddress { opid, pos },
                    block.defined_seals[pos],
                ));
            }
        }
    }
}

/// A seal which the contract answers for an input which the consignment doesn't have is that of a
/// definition which has been applied for the very cell.
pub proof fn law_known_seal_has_been_applied<Seal: RgbSeal, C: ContractApi<Seal>, ReadError>(
    setting: Setting,
    before: (VerifierView<Seal>, C),
    after: (VerifierView<Seal>, C),
    block: BlockView<Seal>,
    memo_opid: Opid,
    answers: Answers<Seal, C::Memory>,
    result: Result<(), ErrorView<Seal, ReadError>>,
    opid: Opid,
    i: int,
)
    requires
        crate::verify::block_verified(setting, before, after, block, memo_opid, answers, result),
        before.0.is_genesis ==> block.operation.contract_id.hi == setting.codex_id.hi
            && block.operation.contract_id.lo == setting.codex_id.lo && opid
            == crate::operation::operation_commitment(
            (OperationView { contract_id: setting.contract_id, ..block.operation }),
        ),
        !before.0.is_genesis ==> opid == memo_opid && (setting.memo_check ==> memo_opid
            == crate::operation::operation_commitment(block.operation)),
        forall|pos: u16| #[trigger]
            block.defined_seals.contains_key(pos) ==> pos < block.operation.destructible_out.len()
                && block.operation.destructible_out[pos as int].auth
                == block.defined_seals[pos].token(),
        !(answers.known && block.witness is Some && answers.witness_known),
        0 <= i < block.operation.destructible_in.len(),
        !(before.0.seals.contains_key(
                    block.operation.destructible_in[i].addr,
                ) && forall|j: int|
                    0 <= j < i ==> (#[trigger] block.operation.destructible_in[j]).addr
                        != block.operation.destructible_in[i].addr),
        forall|k: int|
            0 <= k < i && (#[trigger] answers.known_seals[k]) is None ==> (before.0.seals.contains_key(
                    block.operation.destructible_in[k].addr,
                ) && forall|j: int|
                    0 <= j < k ==> (#[trigger] block.operation.destructible_in[j]).addr
                        != block.operation.destructible_in[k].addr),
        answers.known_seals[i] is Some,
    ensures
        ({
            let addr = block.operation.destructible_in[i].addr;
            let seal = answers.known_seals[i]->0;
            exists|definition: Seal::Definition|
                (match #[trigger] definition.src() {
                    Some(src) => src == seal,
                    None => exists|k: int|
                        0 <= k < before.1.history().len() && (
                        #[trigger] before.1.history()[k] matches ContractCall::ApplyWitness(
                            applied,
                            witness,
                        ) && applied == addr.opid && seal == definition.resolved(
                            Seal::publication(witness.published),
                        )),
                }) && exists|k: int|
                    0 <= k < before.1.history().len() && (
                    #[trigger] before.1.history()[k] matches ContractCall::ApplySeals(applied, seals)
                        && applied == addr.opid && seals.contains_key(addr.pos) && seals[addr.pos]
                        == definition)
        }),
{
    lemma_terms(before.0, setting, block);
    let identified = block.for_contract(setting, before.0.is_genesis);
    let history = before.1.history();
    let addr = block.operation.destructible_in[i].addr;
    let seal = answers.known_seals[i]->0;
    assert(block.identity::<()>(setting, before.0.is_genesis, memo_opid) == Ok::<
        Opid,
        ErrorView<Seal, ()>,
    >(opid));
    assert forall|j: int| 0 <= j < i implies #[trigger] identified.claimed(
        before.0.seals,
        answers.known_seals,
        j,
    ) is Some by {
        if answers.known_seals[j] is None {
            assert(identified.holds_seal(before.0.seals, j));
        }
    }
    assert(!identified.holds_seal(before.0.seals, i));
    assert(identified.asks_seal(before.0.seals, answers, i));
    assert(identified.operation.inputs()[i] == addr);
    assert(crate::api::seal_applied(history, addr, seal));
    let definition = choose|definition: Seal::Definition| #[trigger]
        crate::api::definition_applied(history, addr, definition) && match definition.src() {
            Some(src) => src == seal,
            None => exists|witness: SealWitness<Seal>| #[trigger]
                crate::api::witness_applied(history, addr.opid, witness) && seal
                    == definition.resolved(Seal::publication(witness.published)),
        };
    if definition.src() is None {
        let witness = choose|witness: SealWitness<Seal>| #[trigger]
            crate::api::witness_applied(history, addr.opid, witness) && seal
                == definition.resolved(Seal::publication(witness.published));
        let k = choose|k: int|
            0 <= k < history.len() && history[k] == ContractCall::ApplyWitness(addr.opid, witness);
        assert(history[k] == ContractCall::ApplyWitness(addr.opid, witness));
    }
    assert(crate::api::definition_applied(history, addr, definition));
}

/// The verdict on an operation which is not known, once its seal definitions and the seals of its
/// inputs are in order, is that of the codex of the contract, for the contract, on its cells and its
/// libraries; a favourable one tells the id of the operation. A genesis is judged with the contract
/// id put into it.
pub proof fn law_verdict_is_that_of_the_codex<Seal: RgbSeal, C: ContractApi<Seal>, ReadError>(
    setting: Setting,
    before: (VerifierView<Seal>, C),
    after: (VerifierView<Seal>, C),
    block: BlockView<Seal>,
    memo_opid: Opid,
    answers: Answers<Seal, C::Memory>,
    result: Result<(), ErrorView<Seal, ReadError>>,
    opid: Opid,
)
    requires
        crate::verify::block_verified(setting, before, after, block, memo_opid, answers, result),
        before.0.is_genesis ==> block.operation.contract_id.hi == setting.codex_id.hi
            && block.operation.contract_id.lo == setting.codex_id.lo && opid
            == crate::operation::operation_commitment(
            (OperationView { contract_id: setting.contract_id, ..block.operation }),
        ),
        !before.0.is_genesis ==> opid == memo_opid && (setting.memo_check ==> memo_opid
            == crate::operation::operation_commitment(block.operation)),
        forall|pos: u16| #[trigger]
            block.defined_seals.contains_key(pos) ==> pos < block.operation.destructible_out.len()
                && block.operation.destructible_out[pos as int].auth
                == block.defined_seals[pos].token(),
        !answers.known,
        forall|i: int|
            0 <= i < block.operation.destructible_in.len() && (#[trigger] answers.known_seals[i]) is None
                ==> (before.0.seals.contains_key(
                    block.operation.destructible_in[i].addr,
                ) && forall|j: int|
                    0 <= j < i ==> (#[trigger] block.operation.destructible_in[j]).addr
                        != block.operation.destructible_in[i].addr),
    ensures
        ({
            let operation = if before.0.is_genesis {
                OperationView { contract_id: setting.contract_id, ..block.operation }
            } else {
                block.operation
            };
            &&& crate::codex::codex_verdict(
                before.1.rules(),
                setting.contract_id,
                operation,
                crate::codex::owned_cells(before.1.cells()),
                crate::codex::global_cells(before.1.cells()),
                crate::codex::libraries(before.1.libraries()),
            ) == Some(answers.verdict)
            &&& answers.verdict matches Ok(told) ==> told
                == crate::operation::operation_commitment(operation)
            &&& operation.contract_id != setting.contract_id ==> answers.verdict == Err::<
                Opid,
                CallFailure,
            >(
                CallFailure::WrongContract {
                    expected: setting.contract_id,
                    found: operation.contract_id,
                },
            )
        }),
{
    lemma_terms(before.0, setting, block);
    lemma_none_unclaimed(before.0, setting, block, answers);
    let identified = block.for_contract(setting, before.0.is_genesis);
    assert(block.identity::<()>(setting, before.0.is_genesis, memo_opid) == Ok::<
        Opid,
        ErrorView<Seal, ()>,
    >(opid));
    assert(identified.asks_codex(before.0.seals, answers));
}

} // verus!
