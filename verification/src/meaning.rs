//! What is proved of a verification as a whole and of what it is described with, in terms of the
//! blocks which are read, of the contract, and of the values themselves.
use vstd::prelude::*;

use crate::api::{BlockView, Consulted, ContractApi, ContractCall, OperationSeals, Question};
use crate::codex::{CallFailure, LibRepo, Memory, VerifiedOperation};
use crate::diagnostics::TimingBreakdown;
use crate::error::{ErrorView, VerificationError};
use crate::ids::{AuthToken, CellAddress, CodexId, ContractId, LibraryId, Opid};
use crate::journal::Record;
use crate::model::{Setting, Step, VerifierView};
use crate::operation::{DestructibleCell, OperationParts, OperationView};
use crate::seals::{RgbSeal, RgbSealDef};
use crate::text::Described;
use crate::verify::Trace;

verus! {

/// A verification starts at the genesis, without open seals, and takes the blocks in the order in
/// which they are read, each under the id from the reader. It succeeds exactly at the end of the
/// blocks; it ends with the error of a read at the read which fails, and with any other error at a
/// block which is refused for it. The contract is left as the last block has left it.
pub proof fn law_verification_goes_block_by_block<
    Seal: RgbSeal,
    C: ContractApi<Seal>,
    ReadError,
>(
    trace: Trace<Seal, C>,
    setting: Setting,
    blocks: Seq<Result<(Opid, OperationSeals<Seal>), ReadError>>,
    before: C,
    after: C,
    result: Result<(), ErrorView<Seal, ReadError>>,
    i: int,
)
    requires
        crate::verify::evaluated(trace, setting, blocks, before, after, result),
    ensures
        trace.states.len() > 0,
        trace.accepted() == trace.states.len() - 1,
        trace.accepted() <= blocks.len(),
        trace.states[0].1 == before,
        trace.states[0].0.is_genesis,
        forall|addr: CellAddress| !(#[trigger] trace.states[0].0.seals.contains_key(addr)),
        0 <= i < trace.states.len() - 1 ==> {
            &&& blocks[i] is Ok
            &&& trace.memos[i] == blocks[i]->Ok_0.0 || trace.memos[i]
                == crate::operation::operation_commitment(blocks[i]->Ok_0.1.operation@)
            &&& crate::verify::block_verified(
                setting,
                trace.states[i],
                trace.states[i + 1],
                blocks[i]->Ok_0.1@,
                trace.memos[i],
                trace.answers[i],
                Ok::<(), ErrorView<Seal, ReadError>>(()),
            )
        },
        result is Ok <==> trace.states.len() - 1 == blocks.len(),
        result is Ok ==> after == trace.states.last().1,
        (result matches Err(error) && error is Stream) <==> trace.states.len() - 1 < blocks.len()
            && blocks[trace.states.len() - 1] is Err,
        result matches Err(ErrorView::Stream(error)) ==> blocks[trace.states.len() - 1]->Err_0
            == error && after == trace.states.last().1,
        ({
            let n = trace.states.len() - 1;
            n < blocks.len() && blocks[n] is Ok ==> {
                &&& trace.memos[n] == blocks[n]->Ok_0.0 || trace.memos[n]
                    == crate::operation::operation_commitment(blocks[n]->Ok_0.1.operation@)
                &&& exists|last: VerifierView<Seal>| #[trigger]
                    crate::verify::block_verified(
                        setting,
                        trace.states[n],
                        (last, after),
                        blocks[n]->Ok_0.1@,
                        trace.memos[n],
                        trace.answers[n],
                        result,
                    )
            }
        }),
{
    if 0 <= i < trace.accepted() {
        assert(trace.accepts(setting, blocks, i));
    }
    let n = trace.states.len() - 1;
    if n < blocks.len() && blocks[n] is Ok {
        assert(trace.refuses(setting, blocks[n]->Ok_0.0, blocks[n]->Ok_0.1@, after, result));
    }
}

/// A verification is for the id of the contract and for the id of its codex, and recomputes ids as
/// it is told to.
pub proof fn law_verification_is_for_the_contract<Seal: RgbSeal, C: ContractApi<Seal>>(
    contract: C,
    memo_check: bool,
)
    ensures
        ({
            let setting = crate::verify::setting_of::<Seal, C>(contract, memo_check);
            &&& setting.contract_id == contract.id()
            &&& setting.codex_id == crate::codex::codex_commitment(contract.rules())
            &&& setting.memo_check == memo_check
        }),
{
}

/// A record holds all that is put into it, in order, and loses nothing.
pub proof fn law_record_keeps_all<Seal: RgbSeal, ReadError>(
    record: Record<Seal>,
    opid: Opid,
    question: Question<Seal>,
    part: Consulted,
    call: ContractCall<Seal>,
    step: Step<Seal, ReadError>,
)
    ensures
        Record::<Seal>::empty().ids.len() == 0,
        Record::<Seal>::empty().asked.len() == 0,
        Record::<Seal>::empty().consulted.len() == 0,
        Record::<Seal>::empty().calls.len() == 0,
        record.id(opid) == (Record { ids: record.ids.push(opid), ..record }),
        record.ask(question) == (Record { asked: record.asked.push(question), ..record }),
        record.consult(part) == (Record { consulted: record.consulted.push(part), ..record }),
        record.call(call) == (Record { calls: record.calls.push(call), ..record }),
        record.block(step).ids == record.ids,
        record.block(step).asked == record.asked + step.questions,
        record.block(step).consulted == record.consulted + step.consulted,
        record.block(step).calls == record.calls + step.calls,
        crate::verify::started(record).ids == record.ids,
        crate::verify::started(record).asked == record.asked,
        crate::verify::started(record).consulted == record.consulted + seq![
            Consulted::ContractId,
            Consulted::Codex,
        ],
        crate::verify::started(record).calls == record.calls,
{
    assert(crate::verify::started(record).consulted =~= record.consulted + seq![
        Consulted::ContractId,
        Consulted::Codex,
    ]);
}

/// The record of a verification goes on from the earlier one with the id from the reader, the
/// questions, what is consulted and the calls of each block in turn, the refused one included.
pub proof fn law_record_goes_block_by_block<Seal: RgbSeal, C: ContractApi<Seal>, ReadError>(
    trace: Trace<Seal, C>,
    earlier: Record<Seal>,
    setting: Setting,
    blocks: Seq<Result<(Opid, OperationSeals<Seal>), ReadError>>,
    result: Result<(), ErrorView<Seal, ReadError>>,
    n: nat,
)
    requires
        trace.states.len() > 0,
    ensures
        trace.record(earlier, setting, blocks, 0) == earlier,
        ({
            let step = trace.states[n as int].0.step::<C::Memory, ReadError>(
                setting,
                blocks[n as int]->Ok_0.1@,
                trace.memos[n as int],
                trace.answers[n as int],
            );
            let record = trace.record(earlier, setting, blocks, n);
            let next = Record {
                ids: record.ids.push(trace.memos[n as int]),
                asked: record.asked + step.questions,
                consulted: record.consulted + step.consulted,
                calls: record.calls + step.calls,
            };
            &&& trace.record(earlier, setting, blocks, n + 1) == next
            &&& n == trace.states.len() - 1 ==> trace.whole_record(earlier, setting, blocks, result)
                == if result matches Err(error) && !(error is Stream) {
                next
            } else {
                record
            }
        }),
{
    assert((n + 1) as nat - 1 == n);
}

/// A block consists of its operation, of its seal definitions and of its witness, and an operation
/// of its parts.
pub proof fn law_blocks_consist_of_their_parts<Seal: RgbSeal>(
    block: OperationSeals<Seal>,
    parts: OperationParts,
)
    ensures
        block@.operation == block.operation@,
        block@.defined_seals == block.defined_seals@,
        block@.witness == block.witness,
        parts@.contract_id == parts.contract_id,
        parts@.call_id == parts.call_id,
        parts@.nonce == parts.nonce,
        parts@.witness == parts.witness,
        parts@.destructible_in == parts.destructible_in@,
        parts@.immutable_in == parts.immutable_in@,
        parts@.destructible_out == parts.destructible_out@,
        parts@.immutable_out == parts.immutable_out@,
{
}

/// An operation fits its encoding exactly if none of its lists has more than 65535 elements.
pub proof fn law_lists_have_at_most_65535_elements(operation: OperationView)
    ensures
        operation.fits() <==> operation.destructible_in.len() < 65536
            && operation.immutable_in.len() < 65536 && operation.destructible_out.len() < 65536
            && operation.immutable_out.len() < 65536,
{
}

/// An error says what it holds.
pub proof fn law_errors_say_what_they_hold<Seal: RgbSeal, ReadError>(
    error: VerificationError<Seal, ReadError>,
    result: Result<(), VerificationError<Seal, ReadError>>,
)
    ensures
        match error {
            VerificationError::Stream(read) => error@ == ErrorView::<Seal, ReadError>::Stream(read),
            VerificationError::NoCodexCommitment => error@ is NoCodexCommitment,
            VerificationError::NoWitness(opid) => error@ == ErrorView::<Seal, ReadError>::NoWitness(
                opid,
            ),
            VerificationError::SealsNotClosed(pub_id, opid, closing) => error@ == ErrorView::<
                Seal,
                ReadError,
            >::SealsNotClosed(pub_id, opid, closing),
            VerificationError::SealUnknown(addr) => error@ == ErrorView::<
                Seal,
                ReadError,
            >::SealUnknown(addr),
            VerificationError::SealsDefinitionMismatch { opid, reported, defined, sources } => {
                &&& error@ matches ErrorView::SealsDefinitionMismatch {
                    opid: told,
                    reported: tokens,
                    defined: outputs,
                    sources: texts,
                }
                &&& told == opid
                &&& forall|token: AuthToken| #[trigger]
                    tokens.contains(token) <==> reported@.contains((token.hi, token.lo))
                &&& forall|token: AuthToken| #[trigger]
                    outputs.contains(token) <==> defined@.contains((token.hi, token.lo))
                &&& forall|pos: u16| #[trigger]
                    texts.contains_key(pos) <==> sources@.contains_key(pos)
                &&& forall|pos: u16| #[trigger]
                    texts.contains_key(pos) ==> texts[pos] == sources@[pos]@
            },
            VerificationError::Vm(failure) => error@ == ErrorView::<Seal, ReadError>::Vm(failure),
            VerificationError::OpidMemoMismatch { memoized, recomputed } => {
                &&& error@ matches ErrorView::OpidMemoMismatch { memoized: read, recomputed: own }
                &&& read == memoized
                &&& own == recomputed
            },
        },
        crate::error::outcome(result) is Ok <==> result is Ok,
        result is Err ==> crate::error::outcome(result)->Err_0 == result->Err_0@,
{
}

/// The text of an error tells what it holds.
pub proof fn law_messages_tell_what_errors_hold<Seal: RgbSeal, ReadError: Described>(
    error: ErrorView<Seal, ReadError>,
) where Seal::PubId: Described, Seal::ClosingError: Described
    ensures
        error matches ErrorView::Stream(read) ==> error.message()
            == "error reading the consignment stream.\nDetails: "@ + read.text(),
        error is NoCodexCommitment ==> error.message()
            == "genesis does not commit to the codex id; a wrong contract genesis is used."@,
        error matches ErrorView::NoWitness(opid) ==> error.message()
            == "no witness known for the operation "@ + crate::text::opid_text(opid) + "."@,
        error matches ErrorView::SealsNotClosed(pub_id, opid, closing) ==> error.message()
            == "single-use seals are not closed properly with witness "@ + pub_id.text()
            + " for operation "@ + crate::text::opid_text(opid) + ".\nDetails: "@ + closing.text(),
        error matches ErrorView::SealUnknown(addr) ==> error.message()
            == "unknown seal definition for cell address "@ + (crate::text::opid_text(addr.opid)
            + ":"@ + crate::text::decimal(addr.pos as nat)) + "."@,
        error matches ErrorView::SealsDefinitionMismatch { opid, reported, defined, sources }
            ==> error.message() == "seals, reported to be defined by the operation "@
            + crate::text::opid_text(opid)
            + ", do match the assignments in the operation.\nActual operation seals from the assignments: "@
            + crate::text::tokens_text(defined) + "\nReported seals: "@ + crate::text::tokens_text(
            reported,
        ) + "\nSources for the reported seals: "@ + crate::text::sources_text(sources),
        error matches ErrorView::Vm(failure) ==> error.message() == crate::text::failure_text(
            failure,
        ),
        error matches ErrorView::OpidMemoMismatch { memoized, recomputed } ==> error.message()
            == "RGB verify opid memo mismatch (non-genesis): memoized "@ + crate::text::opid_text(
            memoized,
        ) + " != recomputed "@ + crate::text::opid_text(recomputed),
{
}

/// A number in decimal digits ends with the digit of its units, and what comes before that is the
/// number of its tens, left out where there are none.
pub proof fn law_decimal_digits(n: nat)
    ensures
        crate::text::decimal(n).len() > 0,
        crate::text::decimal(n).last() as u32 == 48 + n % 10,
        n < 10 ==> crate::text::decimal(n).len() == 1,
        n >= 10 ==> crate::text::decimal(n).drop_last() == crate::text::decimal(n / 10),
{
    if n >= 10 {
        assert(crate::text::decimal(n).drop_last() =~= crate::text::decimal(n / 10));
    }
}

/// Addresses and tokens are told apart by all their parts, and a contract id has the bytes of a
/// codex id exactly if both halves are the same.
pub proof fn law_keys_hold_all_parts(
    addr: CellAddress,
    token: AuthToken,
    contract_id: ContractId,
    codex_id: CodexId,
)
    ensures
        addr.spec_key() == (addr.opid.hi, addr.opid.lo, addr.pos),
        token.spec_key() == (token.hi, token.lo),
        contract_id.same_bytes(codex_id) <==> contract_id.hi == codex_id.hi && contract_id.lo
            == codex_id.lo,
{
}

/// Two byte strings of the same length have the same big-endian value only if they are the same, and
/// one more byte counts as the last one.
pub proof fn law_bytes_have_distinct_values(a: Seq<u8>, b: Seq<u8>, last: u8)
    requires
        a.len() == b.len(),
    ensures
        crate::ids::be_value(a) == crate::ids::be_value(b) ==> a == b,
        crate::ids::be_value(a.push(last)) == crate::ids::be_value(a) * 256 + last,
        crate::ids::be_value(Seq::<u8>::empty()) == 0,
    decreases a.len(),
{
    assert(a.push(last).drop_last() =~= a);
    if a.len() > 0 {
        law_bytes_have_distinct_values(a.drop_last(), b.drop_last(), last);
        if crate::ids::be_value(a) == crate::ids::be_value(b) {
            assert(a =~= a.drop_last().push(a.last()));
            assert(b =~= b.drop_last().push(b.last()));
        }
    } else {
        assert(a =~= b);
    }
}

/// The cells and the libraries which the codex gets are those which the memory and the repository
/// return, a library only under its own id.
pub proof fn law_codex_gets_what_the_contract_returns<M: Memory, L: LibRepo>(
    memory: M,
    repo: L,
    addr: CellAddress,
    id: LibraryId,
)
    ensures
        crate::codex::owned_cells(memory).contains_key(addr) <==> memory.owned(addr) is Some,
        memory.owned(addr) matches Some(cell) ==> crate::codex::owned_cells(memory)[addr] == cell,
        crate::codex::global_cells(memory).contains_key(addr) <==> memory.global(addr) is Some,
        memory.global(addr) matches Some(value) ==> crate::codex::global_cells(memory)[addr]
            == value,
        crate::codex::libraries(repo).contains_key(id) <==> (repo.library(id) matches Some(lib)
            && crate::codex::library_commitment(lib) == id),
        crate::codex::libraries(repo).contains_key(id) ==> crate::codex::libraries(repo)[id]
            == repo.library(id)->0,
{
}

/// No script has to come to an end for a block which the contract knows, which is not identified, or
/// whose seal definitions are not in order; nor where the codex is known to return.
pub proof fn law_scripts_matter_for_new_operations<Seal: RgbSeal, C: ContractApi<Seal>>(
    setting: Setting,
    before: (VerifierView<Seal>, C),
    block: BlockView<Seal>,
    memo_opid: Opid,
)
    ensures
        !before.0.is_genesis && before.1.knows(memo_opid) ==> crate::verify::block_ends(
            setting,
            before,
            block,
            memo_opid,
        ),
        before.0.is_genesis && (block.operation.contract_id.hi != setting.codex_id.hi
            || block.operation.contract_id.lo != setting.codex_id.lo) ==> crate::verify::block_ends(
            setting,
            before,
            block,
            memo_opid,
        ),
        !before.0.is_genesis && setting.memo_check && memo_opid
            != crate::operation::operation_commitment(block.operation)
            ==> crate::verify::block_ends(setting, before, block, memo_opid),
        (exists|pos: u16| #[trigger]
            block.defined_seals.contains_key(pos) && (pos >= block.operation.destructible_out.len()
                || block.operation.destructible_out[pos as int].auth
                != block.defined_seals[pos].token())) ==> crate::verify::block_ends(
            setting,
            before,
            block,
            memo_opid,
        ),
        !before.0.is_genesis && crate::codex::codex_verdict(
            before.1.rules(),
            setting.contract_id,
            block.operation,
            crate::codex::owned_cells(before.1.cells()),
            crate::codex::global_cells(before.1.cells()),
            crate::codex::libraries(before.1.libraries()),
        ) is Some ==> crate::verify::block_ends(setting, before, block, memo_opid),
{
    let identified = block.for_contract(setting, before.0.is_genesis);
    if exists|pos: u16| #[trigger]
        block.defined_seals.contains_key(pos) && (pos >= block.operation.destructible_out.len()
            || block.operation.destructible_out[pos as int].auth
            != block.defined_seals[pos].token()) {
        let pos = choose|pos: u16| #[trigger]
            block.defined_seals.contains_key(pos) && (pos >= block.operation.destructible_out.len()
                || block.operation.destructible_out[pos as int].auth
                != block.defined_seals[pos].token());
        assert(identified.defined_seals.contains_key(pos));
        assert(!identified.definitions_match());
    }
}

/// The codex goes on to its scripts exactly if the operation is for the contract and the contract has
/// all the cells which it takes.
pub proof fn law_scripts_run_on_accessible_cells<M: Memory>(
    contract_id: ContractId,
    operation: OperationView,
    memory: M,
)
    ensures
        crate::codex::access_failure(contract_id, operation, memory) is None
            <==> operation.contract_id == contract_id && (forall|i: int|
            0 <= i < operation.destructible_in.len() ==> memory.owned(
                (#[trigger] operation.destructible_in[i]).addr,
            ) is Some) && (forall|i: int|
            0 <= i < operation.immutable_in.len() ==> memory.global(
                #[trigger] operation.immutable_in[i],
            ) is Some),
{
    let owned = |addr: CellAddress| memory.owned(addr) is Some;
    let global = |addr: CellAddress| memory.global(addr) is Some;
    let inputs = operation.inputs();
    crate::laws::lemma_none_absent(inputs, owned);
    crate::laws::lemma_none_absent(operation.immutable_in, global);
    if crate::codex::access_failure(contract_id, operation, memory) is None {
        assert forall|i: int| 0 <= i < operation.destructible_in.len() implies memory.owned(
            (#[trigger] operation.destructible_in[i]).addr,
        ) is Some by {
            assert(owned(inputs[i]));
        }
        assert forall|i: int| 0 <= i < operation.immutable_in.len() implies memory.global(
            #[trigger] operation.immutable_in[i],
        ) is Some by {
            assert(global(operation.immutable_in[i]));
        }
    }
    if forall|i: int|
        0 <= i < operation.destructible_in.len() ==> memory.owned(
            (#[trigger] operation.destructible_in[i]).addr,
        ) is Some {
        assert forall|i: int| !crate::codex::first_absent(inputs, owned, i) by {
            if 0 <= i < inputs.len() {
                assert(inputs[i] == operation.destructible_in[i].addr);
            }
        }
    }
}

/// A consignment can be verified on any contract whose codex returns on every operation.
pub proof fn law_consignment_ends_where_the_codex_returns<
    Seal: RgbSeal,
    C: ContractApi<Seal>,
    ReadError,
>(
    contract: C,
    setting: Setting,
    blocks: Seq<Result<(Opid, OperationSeals<Seal>), ReadError>>,
)
    requires
        forall|
            operation: OperationView,
            owned: Map<CellAddress, DestructibleCell>,
            global: Map<CellAddress, ultrasonic::StateValue>,
        | #[trigger]
            crate::codex::codex_verdict(
                contract.rules(),
                setting.contract_id,
                operation,
                owned,
                global,
                crate::codex::libraries(contract.libraries()),
            ) is Some,
    ensures
        crate::verify::consignment_ends(contract, setting, blocks),
{
    assert forall|trace: Trace<Seal, C>, memo_opid: Opid|
        #![trigger trace.goes_on(setting, blocks, contract, memo_opid)]
        trace.goes_on(setting, blocks, contract, memo_opid) implies crate::verify::block_ends::<
        Seal,
        C,
    >(
        setting,
        trace.states[trace.accepted()],
        blocks[trace.accepted()]->Ok_0.1@,
        memo_opid,
    ) by {
        crate::laws::lemma_rules_stay(trace, setting, blocks, contract, trace.accepted());
    }
}

/// A verification which has not seen a block is at the genesis, without open seals.
pub proof fn law_verification_starts_at_the_genesis<Seal: RgbSeal>(addr: CellAddress)
    ensures
        VerifierView::<Seal>::initial().is_genesis,
        !VerifierView::<Seal>::initial().seals.contains_key(addr),
{
}

/// A list of seal definitions holds each of them once, with the number of its output.
pub proof fn law_definitions_are_listed_once<Definition>(
    entries: Seq<(u16, &Definition)>,
    map: Map<u16, Definition>,
)
    requires
        crate::seals::lists(entries, map),
    ensures
        entries.len() == map.len(),
        forall|i: int|
            0 <= i < entries.len() ==> map.contains_key((#[trigger] entries[i]).0)
                && map[entries[i].0] == *entries[i].1,
        forall|pos: u16| #[trigger]
            map.contains_key(pos) ==> exists|i: int|
                0 <= i < entries.len() && (#[trigger] entries[i]).0 == pos,
        crate::seals::MAX_DEFINED_SEALS == 65535,
{
}

/// The verdict on an operation is its id where it is verified, else the failure.
pub proof fn law_verdict_is_the_id_or_the_failure(verified: Result<VerifiedOperation, CallFailure>)
    ensures
        verified matches Ok(operation) ==> crate::codex::verdict_of(verified) == Ok::<
            Opid,
            CallFailure,
        >(operation.id()),
        verified matches Err(failure) ==> crate::codex::verdict_of(verified) == Err::<
            Opid,
            CallFailure,
        >(failure),
{
}

/// The share of each operation in a span is the greatest which all of them can have.
pub proof fn law_average_is_the_greatest_share(span: u128, ops: usize)
    ensures
        ops == 0 ==> crate::diagnostics::average(span, ops) == 0,
        ops > 0 ==> crate::diagnostics::average(span, ops) * ops <= span,
        ops > 0 ==> span < (crate::diagnostics::average(span, ops) + 1) * ops,
{
    if ops > 0 {
        let share = span as int / ops as int;
        assert(share * (ops as int) <= span && span < (share + 1) * (ops as int)) by (
        nonlinear_arith)
            requires
                ops > 0,
                share == span as int / ops as int,
        ;
    }
}

/// The time which the spans cover is that of all of them, the parts of the application of seals
/// counted once.
pub proof fn law_covered_time_is_that_of_all_spans(times: TimingBreakdown)
    ensures
        times.covered() == times.alu_verify_us + times.seal_close_us + times.read_us
            + times.known_check_us + times.apply_us + times.subset_us + times.seal_map_us
            + times.resolve_us + times.opid_us + times.pub_id_us + times.seal_to_src_us,
{
}

} // verus!
