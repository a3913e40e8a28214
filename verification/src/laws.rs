//! What holds of every verification.
use vstd::prelude::*;

use crate::api::{BlockView, Consulted, ContractApi, ContractCall, OperationSeals, Question};
use crate::codex::{CallFailure, Memory};
use crate::error::ErrorView;
use crate::ids::{CellAddress, Opid};
use crate::journal::Record;
use crate::model::{Answers, Setting, VerifierView};
use crate::seals::RgbSeal;
use crate::verify::Trace;

verus! {

/// A block which is refused changes nothing in the contract.
pub proof fn law_refused_block_changes_nothing<Seal: RgbSeal, M: Memory, ReadError>(
    before: VerifierView<Seal>,
    setting: Setting,
    block: BlockView<Seal>,
    memo_opid: Opid,
    answers: Answers<Seal, M>,
)
    ensures
        ({
            let step = before.step::<M, ReadError>(setting, block, memo_opid, answers);
            step.result is Err ==> step.calls.len() == 0 && step.applied.len() == 0
        }),
{
}

/// An operation is applied only if it is not known, is not the genesis, and the codex accepts it;
/// of an accepted block with such an operation it is always applied.
pub proof fn law_applied_operation_is_new<Seal: RgbSeal, M: Memory, ReadError>(
    before: VerifierView<Seal>,
    setting: Setting,
    block: BlockView<Seal>,
    memo_opid: Opid,
    answers: Answers<Seal, M>,
)
    ensures
        ({
            let step = before.step::<M, ReadError>(setting, block, memo_opid, answers);
            &&& forall|k: int|
                0 <= k < step.calls.len() && (#[trigger] step.calls[k]) is ApplyOperation ==> {
                    &&& !answers.known
                    &&& !before.is_genesis
                    &&& answers.verdict is Ok
                    &&& step.calls[k] == ContractCall::<Seal>::ApplyOperation(
                        answers.verdict->Ok_0,
                        block.operation,
                    )
                }
            &&& step.result is Ok && !answers.known && !before.is_genesis ==> exists|k: int|
                0 <= k < step.calls.len() && (#[trigger] step.calls[k]) is ApplyOperation
        }),
{
    let step = before.step::<M, ReadError>(setting, block, memo_opid, answers);
    if step.result is Ok && !answers.known && !before.is_genesis {
        let k = block.witness_calls(memo_opid).len() as int;
        assert(step.calls[k] is ApplyOperation);
    }
}

/// The witness of a block is applied before its operation, and the operation before its seals.
pub proof fn law_order_of_calls<Seal: RgbSeal, M: Memory, ReadError>(
    before: VerifierView<Seal>,
    setting: Setting,
    block: BlockView<Seal>,
    memo_opid: Opid,
    answers: Answers<Seal, M>,
)
    ensures
        ({
            let calls = before.step::<M, ReadError>(setting, block, memo_opid, answers).calls;
            forall|j: int, k: int|
                #![trigger calls[j], calls[k]]
                0 <= j < calls.len() && 0 <= k < calls.len() ==> {
                    &&& calls[j] is ApplyWitness && calls[k] is ApplyOperation ==> j < k
                    &&& calls[j] is ApplyOperation && calls[k] is ApplySeals ==> j < k
                    &&& calls[j] is ApplyWitness && calls[k] is ApplySeals ==> j < k
                }
        }),
{
}

/// All calls but the staging have an effect which stays.
pub proof fn law_all_but_staging_is_applied<Seal: RgbSeal, M: Memory, ReadError>(
    before: VerifierView<Seal>,
    setting: Setting,
    block: BlockView<Seal>,
    memo_opid: Opid,
    answers: Answers<Seal, M>,
    call: ContractCall<Seal>,
)
    ensures
        ({
            let step = before.step::<M, ReadError>(setting, block, memo_opid, answers);
            step.applied.contains(call) <==> step.calls.contains(call) && !(
            call is StageKnownOperation)
        }),
{
    let step = before.step::<M, ReadError>(setting, block, memo_opid, answers);
    if step.applied.contains(call) {
        let k = choose|k: int| 0 <= k < step.applied.len() && step.applied[k] == call;
        if step.calls.len() > step.applied.len() && !(step.calls[k] == call) {
            assert(step.calls[k + 1] == call);
        } else {
            assert(step.calls[k] == call);
        }
    }
    if step.calls.contains(call) && !(call is StageKnownOperation) {
        let k = choose|k: int| 0 <= k < step.calls.len() && step.calls[k] == call;
        if step.calls.len() > step.applied.len() && !(k < step.applied.len() && step.applied[k]
            == call) {
            assert(step.applied[k - 1] == call);
        } else {
            assert(step.applied[k] == call);
        }
    }
}

/// The seal definitions of an accepted block are applied if there are any, be the operation known
/// or not.
pub proof fn law_defined_seals_are_applied<Seal: RgbSeal, M: Memory, ReadError>(
    before: VerifierView<Seal>,
    setting: Setting,
    block: BlockView<Seal>,
    memo_opid: Opid,
    answers: Answers<Seal, M>,
)
    ensures
        ({
            let step = before.step::<M, ReadError>(setting, block, memo_opid, answers);
            let identity = block.identity::<ReadError>(setting, before.is_genesis, memo_opid);
            step.result is Ok ==> {
                &&& identity is Ok
                &&& step.applied.contains(
                    ContractCall::ApplySeals(identity->Ok_0, block.defined_seals),
                ) <==> block.defined_seals != Map::<u16, Seal::Definition>::empty()
            }
        }),
{
    let step = before.step::<M, ReadError>(setting, block, memo_opid, answers);
    let identity = block.identity::<ReadError>(setting, before.is_genesis, memo_opid);
    if step.result is Ok && block.defined_seals != Map::<u16, Seal::Definition>::empty() {
        let last = step.applied.len() - 1;
        assert(step.applied[last] == ContractCall::<Seal>::ApplySeals(
            identity->Ok_0,
            block.defined_seals,
        ));
    }
}

/// The witness of an accepted block is applied if there is one, be the operation known or not.
pub proof fn law_witness_is_applied<Seal: RgbSeal, M: Memory, ReadError>(
    before: VerifierView<Seal>,
    setting: Setting,
    block: BlockView<Seal>,
    memo_opid: Opid,
    answers: Answers<Seal, M>,
)
    ensures
        ({
            let step = before.step::<M, ReadError>(setting, block, memo_opid, answers);
            let identity = block.identity::<ReadError>(setting, before.is_genesis, memo_opid);
            &&& step.result is Ok && block.witness is Some ==> {
                &&& identity is Ok
                &&& step.applied.contains(
                    ContractCall::ApplyWitness(identity->Ok_0, block.witness->0),
                )
            }
            &&& block.witness is None ==> forall|k: int|
                0 <= k < step.applied.len() ==> !((#[trigger] step.applied[k]) is ApplyWitness)
        }),
{
    let step = before.step::<M, ReadError>(setting, block, memo_opid, answers);
    if step.result is Ok && block.witness is Some {
        let identity = block.identity::<ReadError>(setting, before.is_genesis, memo_opid);
        assert(step.applied[0] == ContractCall::<Seal>::ApplyWitness(
            identity->Ok_0,
            block.witness->0,
        ));
    }
}

/// An operation which is known together with its witness and its seals is accepted and staged,
/// between its witness and its seals, and is not applied; no other operation is ever staged, and
/// the genesis never is.
pub proof fn law_staged_operation_is_fully_known<Seal: RgbSeal, M: Memory, ReadError>(
    before: VerifierView<Seal>,
    setting: Setting,
    block: BlockView<Seal>,
    memo_opid: Opid,
    answers: Answers<Seal, M>,
)
    ensures
        ({
            let step = before.step::<M, ReadError>(setting, block, memo_opid, answers);
            let identity = block.identity::<ReadError>(setting, before.is_genesis, memo_opid);
            let opid = identity->Ok_0;
            &&& identity is Ok && block.fully_known(answers) && !before.is_genesis ==> {
                &&& step.result is Ok
                &&& step.calls == seq![
                    ContractCall::ApplyWitness(opid, block.witness->0),
                    ContractCall::StageKnownOperation(opid, block.operation),
                ] + block.seal_calls(opid)
            }
            &&& before.is_genesis || !block.fully_known(answers) ==> forall|k: int|
                0 <= k < step.calls.len() ==> !((#[trigger] step.calls[k]) is StageKnownOperation)
        }),
{
    let step = before.step::<M, ReadError>(setting, block, memo_opid, answers);
    let opid = block.identity::<ReadError>(setting, before.is_genesis, memo_opid)->Ok_0;
    if block.identity::<ReadError>(setting, before.is_genesis, memo_opid) is Ok
        && block.fully_known(answers) && !before.is_genesis {
        assert(step.calls =~= seq![
            ContractCall::ApplyWitness(opid, block.witness->0),
            ContractCall::StageKnownOperation(opid, block.operation),
        ] + block.seal_calls(opid));
    }
}

/// The contract is asked for a seal only for an input of the operation whose seal the consignment
/// has left out or has already closed.
pub proof fn law_seals_are_asked_for_left_out_inputs<Seal: RgbSeal, M: Memory, ReadError>(
    before: VerifierView<Seal>,
    setting: Setting,
    block: BlockView<Seal>,
    memo_opid: Opid,
    answers: Answers<Seal, M>,
    k: int,
)
    requires
        0 <= k < before.step::<M, ReadError>(
            setting,
            block,
            memo_opid,
            answers,
        ).questions.len(),
        before.step::<M, ReadError>(setting, block, memo_opid, answers).questions[k] is KnownSeal,
    ensures
        exists|i: int|
            0 <= i < block.operation.inputs().len() && !#[trigger] block.holds_seal(
                before.seals,
                i,
            ) && before.step::<M, ReadError>(setting, block, memo_opid, answers).questions[k]
                == Question::<Seal>::KnownSeal(
                block.operation.inputs()[i],
                answers.known_seals[i],
            ),
{
    let step = before.step::<M, ReadError>(setting, block, memo_opid, answers);
    let opid = block.identity::<ReadError>(setting, before.is_genesis, memo_opid)->Ok_0;
    let identified = block.for_contract(setting, before.is_genesis);
    assert(identified.operation.inputs() == block.operation.inputs());
    let known = identified.known_questions(opid, answers);
    let n = identified.looked_up(before.seals, answers.known_seals);
    let asked = identified.seal_questions(before.seals, answers.known_seals, n);
    assert(k >= known.len());
    assert(step.questions == known + asked);
    assert(step.questions[k] == asked[k - known.len()]);
    lemma_seal_question(identified, before.seals, answers.known_seals, n, k - known.len());
    let i = choose|i: int|
        0 <= i < n && !#[trigger] identified.holds_seal(before.seals, i) && asked[k - known.len()]
            == Question::<Seal>::KnownSeal(
            identified.operation.inputs()[i],
            answers.known_seals[i],
        );
    assert(!block.holds_seal(before.seals, i));
    if exists|j: int| identified.first_unclaimed(before.seals, answers.known_seals, j) {
        let j = choose|j: int| identified.first_unclaimed(before.seals, answers.known_seals, j);
        assert(identified.first_unclaimed(before.seals, answers.known_seals, j));
    }
}

proof fn lemma_seal_question<Seal: RgbSeal>(
    block: BlockView<Seal>,
    seals: Map<CellAddress, Seal>,
    known_seals: Seq<Option<Seal>>,
    n: nat,
    k: int,
)
    requires
        0 <= k < block.seal_questions(seals, known_seals, n).len(),
    ensures
        exists|i: int|
            0 <= i < n && !#[trigger] block.holds_seal(seals, i) && block.seal_questions(
                seals,
                known_seals,
                n,
            )[k] == Question::<Seal>::KnownSeal(block.operation.inputs()[i], known_seals[i]),
    decreases n,
{
    if n > 0 {
        let m = (n - 1) as nat;
        let before = block.seal_questions(seals, known_seals, m);
        if k < before.len() {
            lemma_seal_question(block, seals, known_seals, m, k);
            let i = choose|i: int|
                0 <= i < m && !#[trigger] block.holds_seal(seals, i) && before[k] == Question::<
                    Seal,
                >::KnownSeal(block.operation.inputs()[i], known_seals[i]);
            assert(!block.holds_seal(seals, i));
        } else {
            assert(!block.holds_seal(seals, n - 1));
        }
    }
}

/// A check is left out only for what has been applied before: that of a witness if this very
/// witness has been applied for the operation, that of the definitions if each of them has been
/// applied for the same output; and a seal which comes from the contract is that of a definition
/// applied for the cell.
pub proof fn law_only_applied_data_are_trusted<Seal: RgbSeal, C: ContractApi<Seal>, ReadError>(
    setting: Setting,
    before: (VerifierView<Seal>, C),
    after: (VerifierView<Seal>, C),
    block: BlockView<Seal>,
    memo_opid: Opid,
    answers: Answers<Seal, C::Memory>,
    result: Result<(), ErrorView<Seal, ReadError>>,
    i: int,
)
    requires
        crate::verify::block_verified(setting, before, after, block, memo_opid, answers, result),
        block.identity::<ReadError>(setting, before.0.is_genesis, memo_opid) is Ok,
    ensures
        ({
            let opid = block.identity::<ReadError>(setting, before.0.is_genesis, memo_opid)->Ok_0;
            let history = before.1.history();
            &&& block.witness_accepted(answers) ==> crate::api::witness_applied(
                history,
                opid,
                block.witness->0,
            )
            &&& block.fully_known(answers) ==> crate::api::definitions_applied(
                history,
                opid,
                block.defined_seals,
            )
            &&& block.asks_seal(before.0.seals, answers, i) && answers.known_seals[i] is Some
                ==> crate::api::seal_applied(
                history,
                block.operation.inputs()[i],
                answers.known_seals[i]->0,
            )
        }),
{
    let opid = block.identity::<ReadError>(setting, before.0.is_genesis, memo_opid)->Ok_0;
    let identified = block.for_contract(setting, before.0.is_genesis);
    assert(block.identity::<()>(setting, before.0.is_genesis, memo_opid) == Ok::<
        Opid,
        ErrorView<Seal, ()>,
    >(opid));
    assert(identified.operation.inputs() == block.operation.inputs());
    if block.asks_seal(before.0.seals, answers, i) {
        assert forall|j: int| 0 <= j < i implies #[trigger] identified.claimed(
            before.0.seals,
            answers.known_seals,
            j,
        ) is Some by {
            assert(block.claimed(before.0.seals, answers.known_seals, j) is Some);
        }
        assert forall|pos: u16| #[trigger] identified.defined_seals.contains_key(pos) implies pos
            < identified.operation.destructible_out.len()
            && identified.operation.destructible_out[pos as int].auth
            == crate::seals::RgbSealDef::token(&identified.defined_seals[pos]) by {
            assert(block.defined_seals.contains_key(pos));
        }
        assert(identified.asks_seal(before.0.seals, answers, i));
    }
}

/// Where the contract answers that a witness is not known, the full verification path is taken:
/// of an accepted block each seal definition matches its cell, the seal of each input is known,
/// the witness closes them all, and the codex accepts the operation unless it is known. A block
/// without a witness destroys no state.
pub proof fn law_accepted_block_is_sound<Seal: RgbSeal, M: Memory, ReadError>(
    before: VerifierView<Seal>,
    setting: Setting,
    block: BlockView<Seal>,
    memo_opid: Opid,
    answers: Answers<Seal, M>,
)
    requires
        before.step::<M, ReadError>(setting, block, memo_opid, answers).result is Ok,
        !block.witness_accepted(answers),
    ensures
        block.identity::<ReadError>(setting, before.is_genesis, memo_opid) is Ok,
        block.definitions_match(),
        forall|i: int|
            0 <= i < block.operation.inputs().len() ==> #[trigger] block.claimed(
                before.seals,
                answers.known_seals,
                i,
            ) is Some,
        answers.known || answers.verdict is Ok,
        block.witness matches Some(witness) ==> Seal::closing(
            witness.published,
            witness.client,
            block.closed_seals(before.seals, answers.known_seals),
            block.identity::<ReadError>(setting, before.is_genesis, memo_opid)->Ok_0,
        ) is Ok,
        block.witness is None ==> block.operation.inputs().len() == 0,
{
    let identified = block.for_contract(setting, before.is_genesis);
    assert(identified.operation.inputs() == block.operation.inputs());
    assert(identified.closed_seals(before.seals, answers.known_seals) =~= block.closed_seals(
        before.seals,
        answers.known_seals,
    ));
    lemma_all_claimed(identified, before.seals, answers.known_seals);
    assert forall|i: int| 0 <= i < block.operation.inputs().len() implies #[trigger] block.claimed(
        before.seals,
        answers.known_seals,
        i,
    ) is Some by {
        assert(identified.claimed(before.seals, answers.known_seals, i) is Some);
    }
    assert forall|pos: u16| #[trigger] block.defined_seals.contains_key(pos) implies pos
        < block.operation.destructible_out.len() && block.operation.destructible_out[pos as int].auth
        == crate::seals::RgbSealDef::token(&block.defined_seals[pos]) by {
        assert(identified.defined_seals.contains_key(pos));
    }
}

/// Where no input is the first whose seal is unknown, the seals of all inputs are known.
proof fn lemma_all_claimed<Seal: RgbSeal>(
    block: BlockView<Seal>,
    seals: Map<CellAddress, Seal>,
    known_seals: Seq<Option<Seal>>,
)
    requires
        forall|i: int| !(#[trigger] block.first_unclaimed(seals, known_seals, i)),
    ensures
        forall|i: int|
            0 <= i < block.operation.inputs().len() ==> #[trigger] block.claimed(
                seals,
                known_seals,
                i,
            ) is Some,
{
    assert forall|i: int| 0 <= i < block.operation.inputs().len() implies #[trigger] block.claimed(
        seals,
        known_seals,
        i,
    ) is Some by {
        lemma_claimed_up_to(block, seals, known_seals, i);
    }
}

proof fn lemma_claimed_up_to<Seal: RgbSeal>(
    block: BlockView<Seal>,
    seals: Map<CellAddress, Seal>,
    known_seals: Seq<Option<Seal>>,
    i: int,
)
    requires
        forall|i: int| !(#[trigger] block.first_unclaimed(seals, known_seals, i)),
        0 <= i < block.operation.inputs().len(),
    ensures
        block.claimed(seals, known_seals, i) is Some,
    decreases i,
{
    assert forall|j: int| 0 <= j < i implies #[trigger] block.claimed(seals, known_seals, j) is Some by {
        lemma_claimed_up_to(block, seals, known_seals, j);
    }
    assert(!block.first_unclaimed(seals, known_seals, i));
}

/// The seals of the inputs of an accepted block are open no more, but for those which it opens
/// anew; every other seal stays as it is.
pub proof fn law_closed_seals_are_spent<Seal: RgbSeal, M: Memory, ReadError>(
    before: VerifierView<Seal>,
    setting: Setting,
    block: BlockView<Seal>,
    memo_opid: Opid,
    answers: Answers<Seal, M>,
    addr: CellAddress,
)
    requires
        before.step::<M, ReadError>(setting, block, memo_opid, answers).result is Ok,
        block.fully_known(answers) || !block.opens(
            block.identity::<ReadError>(setting, before.is_genesis, memo_opid)->Ok_0,
            addr,
        ),
    ensures
        ({
            let after = before.step::<M, ReadError>(
                setting,
                block,
                memo_opid,
                answers,
            ).result->Ok_0;
            &&& block.operation.inputs().contains(addr) ==> !after.seals.contains_key(addr)
            &&& !block.operation.inputs().contains(addr) ==> {
                &&& after.seals.contains_key(addr) <==> before.seals.contains_key(addr)
                &&& before.seals.contains_key(addr) ==> after.seals[addr] == before.seals[addr]
            }
        }),
{
    let identified = block.for_contract(setting, before.is_genesis);
    assert(identified.operation.inputs() == block.operation.inputs());
    assert(block.operation.inputs().to_set().contains(addr) <==> block.operation.inputs().contains(
        addr,
    ));
    let opid = block.identity::<ReadError>(setting, before.is_genesis, memo_opid)->Ok_0;
    assert(identified.opens(opid, addr) == block.opens(opid, addr));
}

/// The id of a genesis never comes from the reader.
pub proof fn law_genesis_ignores_memo<Seal: RgbSeal, M: Memory, ReadError>(
    before: VerifierView<Seal>,
    setting: Setting,
    block: BlockView<Seal>,
    memo_opid: Opid,
    other_opid: Opid,
    answers: Answers<Seal, M>,
)
    requires
        before.is_genesis,
    ensures
        before.step::<M, ReadError>(setting, block, memo_opid, answers) == before.step::<
            M,
            ReadError,
        >(setting, block, other_opid, answers),
{
}

/// Recomputing the ids which come from the reader makes no difference but to end the verification
/// at an id which is not that of its operation.
pub proof fn law_memo_check_only_finds_mismatch<Seal: RgbSeal, M: Memory, ReadError>(
    before: VerifierView<Seal>,
    setting: Setting,
    block: BlockView<Seal>,
    memo_opid: Opid,
    answers: Answers<Seal, M>,
)
    requires
        setting.memo_check,
    ensures
        ({
            let checked = before.step::<M, ReadError>(setting, block, memo_opid, answers);
            let unchecked = before.step::<M, ReadError>(
                Setting { memo_check: false, ..setting },
                block,
                memo_opid,
                answers,
            );
            if before.is_genesis || memo_opid == crate::operation::operation_commitment(
                block.operation,
            ) {
                checked == unchecked
            } else {
                checked.result == Err::<VerifierView<Seal>, ErrorView<Seal, ReadError>>(
                    ErrorView::OpidMemoMismatch {
                        memoized: memo_opid,
                        recomputed: crate::operation::operation_commitment(block.operation),
                    },
                )
            }
        }),
{
}

/// With the ids of operations computed, a block goes on only under the id of its operation.
pub proof fn law_computed_id_is_that_of_operation<Seal: RgbSeal, ReadError>(
    setting: Setting,
    is_genesis: bool,
    block: BlockView<Seal>,
    memo_opid: Opid,
)
    requires
        is_genesis || setting.memo_check,
        block.identity::<ReadError>(setting, is_genesis, memo_opid) is Ok,
    ensures
        block.identity::<ReadError>(setting, is_genesis, memo_opid)->Ok_0
            == crate::operation::operation_commitment(
            block.for_contract(setting, is_genesis).operation,
        ),
{
}

/// The definitions of some seals may be left out of a block whose definitions match.
pub proof fn law_definitions_may_be_left_out<Seal: RgbSeal>(
    full: BlockView<Seal>,
    part: BlockView<Seal>,
)
    requires
        full.definitions_match(),
        part.operation == full.operation,
        part.defined_seals.submap_of(full.defined_seals),
    ensures
        part.definitions_match(),
{
    assert forall|pos: u16| #[trigger] part.defined_seals.contains_key(pos) implies pos
        < part.operation.destructible_out.len() && part.operation.destructible_out[pos as int].auth
        == crate::seals::RgbSealDef::token(&part.defined_seals[pos]) by {
        assert(full.defined_seals.contains_key(pos));
    }
}

/// An operation is applied under its own id, belongs to the contract, takes only cells which the
/// contract has, and is accepted by the codex of the contract on its cells and libraries; where it takes a destructible cell, its witness is applied before it.
pub proof fn law_applied_operation_is_verified<Seal: RgbSeal, C: ContractApi<Seal>, ReadError>(
    setting: Setting,
    before: (VerifierView<Seal>, C),
    after: (VerifierView<Seal>, C),
    block: BlockView<Seal>,
    memo_opid: Opid,
    answers: Answers<Seal, C::Memory>,
    result: Result<(), ErrorView<Seal, ReadError>>,
    k: int,
)
    requires
        crate::verify::block_verified(setting, before, after, block, memo_opid, answers, result),
        before.1.history().len() <= k < after.1.history().len(),
        after.1.history()[k] is ApplyOperation,
    ensures
        after.1.history()[k] == ContractCall::<Seal>::ApplyOperation(
            crate::operation::operation_commitment(block.operation),
            block.operation,
        ),
        !before.1.knows(
            block.identity::<ReadError>(setting, before.0.is_genesis, memo_opid)->Ok_0,
        ),
        block.operation.contract_id == setting.contract_id,
        answers.memory == before.1.cells(),
        crate::codex::codex_verdict(
            before.1.rules(),
            setting.contract_id,
            block.operation,
            crate::codex::owned_cells(before.1.cells()),
            crate::codex::global_cells(before.1.cells()),
            crate::codex::libraries(before.1.libraries()),
        ) == Some(
            Ok::<Opid, CallFailure>(crate::operation::operation_commitment(block.operation)),
        ),
        forall|i: int|
            0 <= i < block.operation.inputs().len() ==> answers.memory.owned(
                #[trigger] block.operation.inputs()[i],
            ) is Some,
        forall|i: int|
            0 <= i < block.operation.immutable_in.len() ==> answers.memory.global(
                #[trigger] block.operation.immutable_in[i],
            ) is Some,
        block.operation.inputs().len() > 0 ==> block.witness is Some && after.1.history()[k - 1]
            == ContractCall::ApplyWitness(
            block.identity::<ReadError>(setting, before.0.is_genesis, memo_opid)->Ok_0,
            block.witness->0,
        ) && k > before.1.history().len(),
{
    let opid = block.identity::<ReadError>(setting, before.0.is_genesis, memo_opid)->Ok_0;
    let step = before.0.step::<C::Memory, ReadError>(setting, block, memo_opid, answers);
    let n = before.1.history().len();
    assert(after.1.history()[k] == step.calls[k - n]);
    assert(block.identity::<()>(setting, before.0.is_genesis, memo_opid) == Ok::<
        Opid,
        ErrorView<Seal, ()>,
    >(opid));
    assert(block.for_contract(setting, before.0.is_genesis) == block);
    assert(block.asks_codex(before.0.seals, answers));
    assert(crate::codex::possible_verdict(
        setting.contract_id,
        block.operation,
        answers.memory,
        answers.verdict,
    ));
    let owned = |addr: CellAddress| answers.memory.owned(addr) is Some;
    let global = |addr: CellAddress| answers.memory.global(addr) is Some;
    lemma_none_absent(block.operation.inputs(), owned);
    lemma_none_absent(block.operation.immutable_in, global);
    assert forall|i: int| 0 <= i < block.operation.inputs().len() implies answers.memory.owned(
        #[trigger] block.operation.inputs()[i],
    ) is Some by {
        assert(owned(block.operation.inputs()[i]));
    }
    assert forall|i: int| 0 <= i < block.operation.immutable_in.len() implies answers.memory.global(
        #[trigger] block.operation.immutable_in[i],
    ) is Some by {
        assert(global(block.operation.immutable_in[i]));
    }
}

/// Where no address is the first one that is absent, none is.
pub(crate) proof fn lemma_none_absent(addrs: Seq<CellAddress>, present: spec_fn(CellAddress) -> bool)
    ensures
        (forall|i: int| !crate::codex::first_absent(addrs, present, i)) ==> forall|i: int|
            0 <= i < addrs.len() ==> present(#[trigger] addrs[i]),
{
    if forall|i: int| !crate::codex::first_absent(addrs, present, i) {
        assert forall|i: int| 0 <= i < addrs.len() implies present(#[trigger] addrs[i]) by {
            lemma_present_up_to(addrs, present, i);
        }
    }
}

proof fn lemma_present_up_to(
    addrs: Seq<CellAddress>,
    present: spec_fn(CellAddress) -> bool,
    i: int,
)
    requires
        forall|i: int| !crate::codex::first_absent(addrs, present, i),
        0 <= i < addrs.len(),
    ensures
        present(addrs[i]),
    decreases i,
{
    assert forall|j: int| 0 <= j < i implies present(#[trigger] addrs[j]) by {
        lemma_present_up_to(addrs, present, j);
    }
    assert(!crate::codex::first_absent(addrs, present, i));
}

/// What the first `n` blocks of a consignment apply to the contract.
pub open spec fn applied_by<Seal: RgbSeal, C: ContractApi<Seal>, ReadError>(
    trace: Trace<Seal, C>,
    setting: Setting,
    blocks: Seq<Result<(Opid, OperationSeals<Seal>), ReadError>>,
    n: nat,
) -> Seq<ContractCall<Seal>>
    decreases n,
{
    if n == 0 {
        seq![]
    } else {
        applied_by(trace, setting, blocks, (n - 1) as nat) + trace.step(
            setting,
            blocks,
            n - 1,
        ).applied
    }
}

proof fn lemma_history<Seal: RgbSeal, C: ContractApi<Seal>, ReadError>(
    trace: Trace<Seal, C>,
    setting: Setting,
    blocks: Seq<Result<(Opid, OperationSeals<Seal>), ReadError>>,
    before: C,
    n: nat,
)
    requires
        trace.runs(setting, blocks, before),
        n <= trace.accepted(),
    ensures
        trace.states[n as int].1.history() == before.history() + applied_by(
            trace,
            setting,
            blocks,
            n,
        ),
    decreases n,
{
    if n == 0 {
        assert(before.history() + Seq::<ContractCall<Seal>>::empty() =~= before.history());
    } else {
        lemma_history(trace, setting, blocks, before, (n - 1) as nat);
        assert(trace.accepts(setting, blocks, n - 1));
        assert(trace.states[n as int].1.history() =~= before.history() + applied_by(
            trace,
            setting,
            blocks,
            n,
        ));
    }
}

/// However a verification ends, what has been applied to the contract is what the accepted blocks
/// apply, in their order, and nothing else: neither by a block which is refused nor by a read which
/// fails.
pub proof fn law_contract_changes_by_accepted_blocks<
    Seal: RgbSeal,
    C: ContractApi<Seal>,
    ReadError,
>(
    trace: Trace<Seal, C>,
    setting: Setting,
    blocks: Seq<Result<(Opid, OperationSeals<Seal>), ReadError>>,
    before: C,
    after: C,
    result: Result<(), ErrorView<Seal, ReadError>>,
)
    requires
        crate::verify::evaluated(trace, setting, blocks, before, after, result),
    ensures
        after.history() == before.history() + applied_by(
            trace,
            setting,
            blocks,
            trace.accepted() as nat,
        ),
{
    lemma_history(trace, setting, blocks, before, trace.accepted() as nat);
    assert(after.history() =~= trace.states[trace.accepted()].1.history());
}

/// A consignment is valid only if every block of it is read and accepted; an empty one is, and
/// leaves the contract as it is.
pub proof fn law_valid_consignment_is_accepted_whole<
    Seal: RgbSeal,
    C: ContractApi<Seal>,
    ReadError,
>(
    trace: Trace<Seal, C>,
    setting: Setting,
    blocks: Seq<Result<(Opid, OperationSeals<Seal>), ReadError>>,
    before: C,
    after: C,
    result: Result<(), ErrorView<Seal, ReadError>>,
)
    requires
        crate::verify::evaluated(trace, setting, blocks, before, after, result),
    ensures
        result is Ok <==> trace.accepted() == blocks.len(),
        result is Ok ==> forall|i: int|
            0 <= i < blocks.len() ==> #[trigger] trace.accepts(setting, blocks, i),
        blocks.len() == 0 ==> result is Ok && after == before,
{
}

/// A consignment which starts with a genesis of another codex is refused and changes nothing.
pub proof fn law_foreign_genesis_is_refused<Seal: RgbSeal, C: ContractApi<Seal>, ReadError>(
    trace: Trace<Seal, C>,
    setting: Setting,
    blocks: Seq<Result<(Opid, OperationSeals<Seal>), ReadError>>,
    before: C,
    after: C,
    result: Result<(), ErrorView<Seal, ReadError>>,
)
    requires
        crate::verify::evaluated(trace, setting, blocks, before, after, result),
        blocks.len() > 0,
        blocks[0] is Ok,
        !blocks[0]->Ok_0.1@.operation.contract_id.same_bytes(setting.codex_id),
    ensures
        result == Err::<(), ErrorView<Seal, ReadError>>(ErrorView::NoCodexCommitment),
        after.history() == before.history(),
{
    if trace.accepted() > 0 {
        assert(trace.accepts(setting, blocks, 0));
    }
    assert(after.history() =~= before.history());
}

/// Where each id which comes from the reader is that of its operation, each is taken as such, and
/// no mismatch of ids is found.
pub proof fn law_honest_ids_never_mismatch<Seal: RgbSeal, C: ContractApi<Seal>, ReadError>(
    trace: Trace<Seal, C>,
    setting: Setting,
    blocks: Seq<Result<(Opid, OperationSeals<Seal>), ReadError>>,
    before: C,
    after: C,
    result: Result<(), ErrorView<Seal, ReadError>>,
)
    requires
        crate::verify::evaluated(trace, setting, blocks, before, after, result),
        crate::api::honest(blocks),
    ensures
        forall|i: int|
            0 <= i < trace.accepted() ==> #[trigger] trace.memos[i]
                == crate::operation::operation_commitment(blocks[i]->Ok_0.1@.operation),
        !(result matches Err(error) && error is OpidMemoMismatch),
{
    assert forall|i: int| 0 <= i < trace.accepted() implies #[trigger] trace.memos[i]
        == crate::operation::operation_commitment(blocks[i]->Ok_0.1@.operation) by {
        assert(trace.accepts(setting, blocks, i));
        assert(blocks[i] is Ok);
    }
    if result matches Err(error) && error is OpidMemoMismatch {
        let n = trace.accepted();
        assert(blocks[n] is Ok);
    }
}

/// The blocks which are accepted before a verification fails are a valid consignment by
/// themselves, and leave the contract with the same history and the same cells. The error of a read is returned
/// exactly where the block after the accepted ones could not be read.
pub proof fn law_accepted_prefix_is_valid<Seal: RgbSeal, C: ContractApi<Seal>, ReadError>(
    trace: Trace<Seal, C>,
    setting: Setting,
    blocks: Seq<Result<(Opid, OperationSeals<Seal>), ReadError>>,
    before: C,
    after: C,
    result: Result<(), ErrorView<Seal, ReadError>>,
)
    requires
        crate::verify::evaluated(trace, setting, blocks, before, after, result),
    ensures
        crate::verify::evaluated(
            trace,
            setting,
            blocks.take(trace.accepted()),
            before,
            trace.states[trace.accepted()].1,
            Ok::<(), ErrorView<Seal, ReadError>>(()),
        ),
        after.history() == trace.states[trace.accepted()].1.history(),
        after.cells() == trace.states[trace.accepted()].1.cells(),
        after.spendable() == trace.states[trace.accepted()].1.spendable(),
        (result matches Err(error) && error is Stream) <==> trace.accepted() < blocks.len()
            && blocks[trace.accepted()] is Err,
        result matches Err(ErrorView::Stream(error)) ==> blocks[trace.accepted()] == Err::<
            (Opid, OperationSeals<Seal>),
            ReadError,
        >(error),
{
    let n = trace.accepted();
    let part = blocks.take(n);
    assert forall|i: int| 0 <= i < n implies #[trigger] trace.accepts(setting, part, i) by {
        assert(trace.accepts(setting, blocks, i));
    }
    assert(after.history() =~= trace.states[n].1.history());
}

/// A consignment which has been accepted is accepted again, and no operation of it is verified by
/// the codex or applied, where by then each operation and each witness of it is known, and seal
/// definitions which were known still are. The consignment comes with the same ids, and its first
/// block has no witness, as a genesis has not.
pub proof fn law_known_consignment_is_accepted_again<
    Seal: RgbSeal,
    C: ContractApi<Seal>,
    ReadError,
>(
    first: Trace<Seal, C>,
    second: Trace<Seal, C>,
    setting: Setting,
    blocks: Seq<Result<(Opid, OperationSeals<Seal>), ReadError>>,
    start: C,
    middle: C,
    before: C,
    after: C,
    result: Result<(), ErrorView<Seal, ReadError>>,
)
    requires
        crate::verify::evaluated(
            first,
            setting,
            blocks,
            start,
            middle,
            Ok::<(), ErrorView<Seal, ReadError>>(()),
        ),
        crate::verify::evaluated(second, setting, blocks, before, after, result),
        blocks.len() > 0 ==> blocks[0]->Ok_0.1@.witness is None,
        forall|i: int|
            0 <= i < second.memos.len() && i < first.memos.len() ==> #[trigger] second.memos[i]
                == first.memos[i],
        forall|i: int|
            0 <= i < blocks.len() && i < second.answers.len() ==> still_known(
                blocks[i]->Ok_0.1@,
                first.answers[i],
                #[trigger] second.answers[i],
            ),
    ensures
        result is Ok,
        forall|i: int, k: int|
            0 <= i < blocks.len() && 0 <= k < second.step(setting, blocks, i).calls.len() ==> !((
            #[trigger] second.step(setting, blocks, i).calls[k]) is ApplyOperation),
        forall|i: int|
            0 <= i < blocks.len() ==> !blocks[i]->Ok_0.1@.asks_codex(
                second.states[i].0.seals,
                #[trigger] second.answers[i],
            ),
{
    let n = second.accepted();
    if n < blocks.len() {
        assert(first.accepts(setting, blocks, n));
        lemma_genesis_flag(first, setting, blocks, start, n);
        lemma_genesis_flag(second, setting, blocks, before, n);
        let block = blocks[n]->Ok_0.1@;
        assert(blocks[n] is Ok);
        assert(second.memos[n] == first.memos[n]);
        assert(still_known(block, first.answers[n], second.answers[n]));
        lemma_known_block_is_accepted::<Seal, C, ReadError>(
            setting,
            first.states[n].0,
            second.states[n].0,
            block,
            first.memos[n],
            first.answers[n],
            second.answers[n],
        );
    }
    assert forall|i: int, k: int|
        0 <= i < blocks.len() && 0 <= k < second.step(setting, blocks, i).calls.len() implies !((
    #[trigger] second.step(setting, blocks, i).calls[k]) is ApplyOperation) by {
        assert(second.accepts(setting, blocks, i));
        assert(still_known(blocks[i]->Ok_0.1@, first.answers[i], second.answers[i]));
    }
    assert forall|i: int| 0 <= i < blocks.len() implies !blocks[i]->Ok_0.1@.asks_codex(
        second.states[i].0.seals,
        #[trigger] second.answers[i],
    ) by {
        assert(second.accepts(setting, blocks, i));
        assert(still_known(blocks[i]->Ok_0.1@, first.answers[i], second.answers[i]));
    }
}

/// Whether an operation and its witness are known by now, and its seal definitions if they were.
pub open spec fn still_known<Seal: RgbSeal, M: Memory>(
    block: BlockView<Seal>,
    then: Answers<Seal, M>,
    now: Answers<Seal, M>,
) -> bool {
    &&& now.known
    &&& block.witness is Some ==> now.witness_known
    &&& block.fully_known(then) ==> now.seals_known
}

/// Where the first block has no witness, it alone is taken for the genesis.
proof fn lemma_genesis_flag<Seal: RgbSeal, C: ContractApi<Seal>, ReadError>(
    trace: Trace<Seal, C>,
    setting: Setting,
    blocks: Seq<Result<(Opid, OperationSeals<Seal>), ReadError>>,
    before: C,
    n: int,
)
    requires
        trace.runs(setting, blocks, before),
        0 <= n <= trace.accepted(),
        blocks.len() > 0 ==> blocks[0]->Ok_0.1@.witness is None,
    ensures
        trace.states[n].0.is_genesis == (n == 0),
    decreases n,
{
    if n > 0 {
        lemma_genesis_flag(trace, setting, blocks, before, n - 1);
        assert(trace.accepts(setting, blocks, n - 1));
    }
}

proof fn lemma_known_block_is_accepted<Seal: RgbSeal, C: ContractApi<Seal>, ReadError>(
    setting: Setting,
    then: VerifierView<Seal>,
    now: VerifierView<Seal>,
    block: BlockView<Seal>,
    memo: Opid,
    first: Answers<Seal, C::Memory>,
    second: Answers<Seal, C::Memory>,
)
    requires
        then.is_genesis == now.is_genesis,
        then.step::<C::Memory, ReadError>(setting, block, memo, first).result is Ok,
        still_known(block, first, second),
    ensures
        now.step::<C::Memory, ReadError>(setting, block, memo, second).result is Ok,
{
    let identified = block.for_contract(setting, now.is_genesis);
    if !block.fully_known(second) {
        assert(!identified.fully_known(first));
        if block.witness is None {
            assert(identified.closed_seals(then.seals, first.known_seals).len() == 0);
        }
    }
}

/// Once a block is not taken for the genesis, no block after it is.
pub proof fn law_genesis_comes_first<Seal: RgbSeal, C: ContractApi<Seal>, ReadError>(
    trace: Trace<Seal, C>,
    setting: Setting,
    blocks: Seq<Result<(Opid, OperationSeals<Seal>), ReadError>>,
    before: C,
    i: int,
    n: int,
)
    requires
        trace.runs(setting, blocks, before),
        0 <= i <= n <= trace.accepted(),
        trace.states[n].0.is_genesis,
    ensures
        trace.states[i].0.is_genesis,
    decreases n,
{
    if i < n {
        assert(trace.accepts(setting, blocks, n - 1));
        law_genesis_comes_first(trace, setting, blocks, before, i, n - 1);
    }
}

/// The contract keeps its id and its rules, and so what stays the same throughout a verification
/// stays the same for the next one.
pub proof fn law_setting_stays<Seal: RgbSeal, C: ContractApi<Seal>, ReadError>(
    trace: Trace<Seal, C>,
    setting: Setting,
    blocks: Seq<Result<(Opid, OperationSeals<Seal>), ReadError>>,
    before: C,
    after: C,
    result: Result<(), ErrorView<Seal, ReadError>>,
    memo_check: bool,
)
    requires
        crate::verify::evaluated(trace, setting, blocks, before, after, result),
    ensures
        crate::verify::setting_of::<Seal, C>(after, memo_check) == crate::verify::setting_of::<
            Seal,
            C,
        >(before, memo_check),
        after.libraries() == before.libraries(),
{
    lemma_rules_stay(trace, setting, blocks, before, trace.accepted());
}

pub(crate) proof fn lemma_rules_stay<Seal: RgbSeal, C: ContractApi<Seal>, ReadError>(
    trace: Trace<Seal, C>,
    setting: Setting,
    blocks: Seq<Result<(Opid, OperationSeals<Seal>), ReadError>>,
    before: C,
    n: int,
)
    requires
        trace.runs(setting, blocks, before),
        0 <= n <= trace.accepted(),
    ensures
        trace.states[n].1.id() == before.id(),
        trace.states[n].1.rules() == before.rules(),
        trace.states[n].1.libraries() == before.libraries(),
    decreases n,
{
    if n > 0 {
        lemma_rules_stay(trace, setting, blocks, before, n - 1);
        assert(trace.accepts(setting, blocks, n - 1));
    }
}

/// A cell which is not spendable before a verification is not after it either, unless an operation
/// is applied which defines the cell: to stage an operation makes none of its cells spendable, be
/// they spent or not.
pub proof fn law_spent_cells_stay_spent<Seal: RgbSeal, C: ContractApi<Seal>, ReadError>(
    trace: Trace<Seal, C>,
    setting: Setting,
    blocks: Seq<Result<(Opid, OperationSeals<Seal>), ReadError>>,
    before: C,
    after: C,
    result: Result<(), ErrorView<Seal, ReadError>>,
)
    requires
        crate::verify::evaluated(trace, setting, blocks, before, after, result),
    ensures
        crate::api::spendable_by(
            before.spendable(),
            applied_by(trace, setting, blocks, trace.accepted() as nat),
            after.spendable(),
        ),
{
    lemma_spendable(trace, setting, blocks, before, trace.accepted() as nat);
    law_accepted_prefix_is_valid(trace, setting, blocks, before, after, result);
}

proof fn lemma_spendable<Seal: RgbSeal, C: ContractApi<Seal>, ReadError>(
    trace: Trace<Seal, C>,
    setting: Setting,
    blocks: Seq<Result<(Opid, OperationSeals<Seal>), ReadError>>,
    before: C,
    n: nat,
)
    requires
        trace.runs(setting, blocks, before),
        n <= trace.accepted(),
    ensures
        crate::api::spendable_by(
            before.spendable(),
            applied_by(trace, setting, blocks, n),
            trace.states[n as int].1.spendable(),
        ),
    decreases n,
{
    if n > 0 {
        let m = (n - 1) as nat;
        lemma_spendable(trace, setting, blocks, before, m);
        assert(trace.accepts(setting, blocks, n - 1));
        let earlier = applied_by(trace, setting, blocks, m);
        let last = trace.step(setting, blocks, n - 1).applied;
        let all = applied_by(trace, setting, blocks, n);
        assert(all == earlier + last);
        assert forall|addr: CellAddress| #[trigger]
            trace.states[n as int].1.spendable().contains(addr) implies before.spendable().contains(
            addr,
        ) || crate::api::cell_applied(all, addr) by {
            if trace.states[n - 1].1.spendable().contains(addr) {
                if crate::api::cell_applied(earlier, addr) {
                    let k = choose|k: int|
                        0 <= k < earlier.len() && (
                        #[trigger] earlier[k] matches ContractCall::ApplyOperation(opid, operation)
                            && opid == addr.opid && addr.pos < operation.destructible_out.len());
                    assert(all[k] == earlier[k]);
                }
            } else {
                let k = choose|k: int|
                    0 <= k < last.len() && (#[trigger] last[k] matches ContractCall::ApplyOperation(
                        opid,
                        operation,
                    ) && opid == addr.opid && addr.pos < operation.destructible_out.len());
                assert(all[earlier.len() + k] == last[k]);
            }
        }
    }
}

/// The contract id is consulted once in a verification; the codex and the libraries are at most once
/// for a block, and the codex once before.
pub proof fn law_parts_are_consulted_once<Seal: RgbSeal, C: ContractApi<Seal>, ReadError>(
    trace: Trace<Seal, C>,
    earlier: Record<Seal>,
    setting: Setting,
    blocks: Seq<Result<(Opid, OperationSeals<Seal>), ReadError>>,
    result: Result<(), ErrorView<Seal, ReadError>>,
    i: int,
)
    requires
        trace.accepted() >= 0,
    ensures
        ({
            let all = trace.whole_record(
                crate::verify::started(earlier),
                setting,
                blocks,
                result,
            ).consulted;
            let n = earlier.consulted.len() as int;
            &&& all.len() >= n + 2
            &&& all[n] is ContractId
            &&& all[n + 1] is Codex
            &&& forall|k: int| n < k < all.len() ==> !((#[trigger] all[k]) is ContractId)
        }),
        ({
            let consulted = trace.step(setting, blocks, i).consulted;
            consulted.len() == 0 || consulted == seq![
                Consulted::Memory,
                Consulted::Codex,
                Consulted::Repo,
            ]
        }),
{
    lemma_consulted(trace, earlier, setting, blocks, trace.accepted() as nat);
}

proof fn lemma_consulted<Seal: RgbSeal, C: ContractApi<Seal>, ReadError>(
    trace: Trace<Seal, C>,
    earlier: Record<Seal>,
    setting: Setting,
    blocks: Seq<Result<(Opid, OperationSeals<Seal>), ReadError>>,
    m: nat,
)
    ensures
        ({
            let all = trace.record(
                crate::verify::started(earlier),
                setting,
                blocks,
                m,
            ).consulted;
            let n = earlier.consulted.len() as int;
            &&& all.len() >= n + 2
            &&& all[n] is ContractId
            &&& all[n + 1] is Codex
            &&& forall|k: int| n < k < all.len() ==> !((#[trigger] all[k]) is ContractId)
        }),
    decreases m,
{
    if m > 0 {
        lemma_consulted(trace, earlier, setting, blocks, (m - 1) as nat);
    }
}

/// Whether an accepted block has opened a seal for a cell.
pub open spec fn opened_by<Seal: RgbSeal, C: ContractApi<Seal>, ReadError>(
    trace: Trace<Seal, C>,
    setting: Setting,
    blocks: Seq<Result<(Opid, OperationSeals<Seal>), ReadError>>,
    addr: CellAddress,
    seal: Seal,
    i: int,
) -> bool {
    let block = blocks[i]->Ok_0.1@;
    let identity = block.identity::<ReadError>(
        setting,
        trace.states[i].0.is_genesis,
        trace.memos[i],
    );
    &&& identity is Ok
    &&& block.opens(identity->Ok_0, addr)
    &&& block.defined_seal(addr.pos) == Some(seal)
}

/// Whether none of some blocks takes a cell as an input.
pub open spec fn unspent<Seal: RgbSeal, ReadError>(
    blocks: Seq<Result<(Opid, OperationSeals<Seal>), ReadError>>,
    addr: CellAddress,
    from: int,
    to: int,
) -> bool {
    forall|j: int|
        from <= j < to ==> !(#[trigger] blocks[j])->Ok_0.1@.operation.inputs().contains(addr)
}

/// A seal is open only if an accepted block has defined it for that very cell and no block
/// accepted after that has taken the cell: a seal once closed is open no more unless it is defined
/// anew.
pub proof fn law_open_seal_is_defined_and_unspent<Seal: RgbSeal, C: ContractApi<Seal>, ReadError>(
    trace: Trace<Seal, C>,
    setting: Setting,
    blocks: Seq<Result<(Opid, OperationSeals<Seal>), ReadError>>,
    before: C,
    n: int,
    addr: CellAddress,
)
    requires
        trace.runs(setting, blocks, before),
        0 <= n <= trace.accepted(),
        trace.states[n].0.seals.contains_key(addr),
    ensures
        exists|i: int|
            0 <= i < n && #[trigger] opened_by(
                trace,
                setting,
                blocks,
                addr,
                trace.states[n].0.seals[addr],
                i,
            ) && unspent(blocks, addr, i + 1, n),
    decreases n,
{
    if n > 0 {
        let m = n - 1;
        assert(trace.accepts(setting, blocks, m));
        let start = trace.states[m].0;
        let end = trace.states[n].0;
        let block = blocks[m]->Ok_0.1@;
        let memo = trace.memos[m];
        let answers = trace.answers[m];
        let opid = block.identity::<ReadError>(setting, start.is_genesis, memo)->Ok_0;
        let identified = block.for_contract(setting, start.is_genesis);
        assert(identified.operation.inputs() == block.operation.inputs());
        assert(identified.opens(opid, addr) == block.opens(opid, addr));
        assert(identified.defined_seal(addr.pos) == block.defined_seal(addr.pos));
        if !block.fully_known(answers) && block.opens(opid, addr) {
            assert(opened_by(trace, setting, blocks, addr, end.seals[addr], m));
            assert(unspent(blocks, addr, m + 1, n));
        } else {
            law_closed_seals_are_spent::<Seal, C::Memory, ReadError>(
                start,
                setting,
                block,
                memo,
                answers,
                addr,
            );
            law_open_seal_is_defined_and_unspent(trace, setting, blocks, before, m, addr);
            let i = choose|i: int|
                0 <= i < m && #[trigger] opened_by(
                    trace,
                    setting,
                    blocks,
                    addr,
                    start.seals[addr],
                    i,
                ) && unspent(blocks, addr, i + 1, m);
            assert(unspent(blocks, addr, i + 1, n));
            assert(opened_by(trace, setting, blocks, addr, end.seals[addr], i));
        }
    }
}

} // verus!
