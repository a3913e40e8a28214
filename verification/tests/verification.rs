//! The verification procedure with seals which are plain numbers.
use std::collections::{BTreeMap, BTreeSet, HashMap};
use std::vec::IntoIter;

use amplify::confinement::{TinyOrdMap, TinyString};
use amplify::ByteArray;
use ultrasonic::aluvm::alu::isa::{CtrlInstr, Instr};
use ultrasonic::aluvm::alu::{CoreConfig, Lib, LibId, LibSite};
use ultrasonic::aluvm::gfa::FieldInstr;
use ultrasonic::aluvm::{RegE, FIELD_ORDER_SECP};
use ultrasonic::{fe256, CellLock, Codex, Identity, StateData, StateValue};

use rgb_verify::codex::{
    verify_operation, CallFailure, LibRepo, Memory, MemoryReader, RepoReader, VerifiedOperation,
};
use rgb_verify::ids::{AuthToken, CellAddress, CodexId, ContractId, LibraryId, Opid};
use rgb_verify::journal::Journal;
use rgb_verify::model::Setting;
use rgb_verify::operation::{ContractOperation, DestructibleCell, Input, OperationParts};
use rgb_verify::seals::{DefinedSeals, RgbSeal, RgbSealDef, SealWitness};
use rgb_verify::text::Described;
use rgb_verify::verify::{verify_closing, Verifier};
use rgb_verify::{ContractApi, ContractVerify, OperationSeals, ReadOperation, VerificationError};

/// A seal with a number.
#[derive(Copy, Clone, PartialEq, Debug)]
struct NumSeal(u64);

/// Either the number of a seal or an offset from the number of a witness.
#[derive(Copy, Clone, PartialEq, Debug)]
enum NumDef {
    At(u64),
    After(u64),
}

/// The number of a witness and the seals which it closes.
#[derive(Clone, PartialEq, Debug)]
struct Publication {
    id: u64,
    closes: Vec<u64>,
}

#[derive(Copy, Clone, PartialEq, Debug)]
struct PublicationId(u64);

#[derive(PartialEq, Debug)]
enum NotClosed {
    Seal(u64),
    Message,
}

#[derive(PartialEq, Debug)]
struct Broken;

impl Described for PublicationId {
    fn to_text(&self) -> String { format!("#{}", self.0) }
}

impl Described for NotClosed {
    fn to_text(&self) -> String { format!("{self:?}") }
}

impl Described for Broken {
    fn to_text(&self) -> String { String::from("the line is broken") }
}

impl RgbSealDef for NumDef {
    type Src = NumSeal;
    type PubId = PublicationId;

    fn auth_token(&self) -> AuthToken {
        match *self {
            NumDef::At(no) => AuthToken { hi: 1, lo: no as u128 },
            NumDef::After(no) => AuthToken { hi: 2, lo: no as u128 },
        }
    }

    fn to_src(&self) -> Option<NumSeal> {
        match *self {
            NumDef::At(no) => Some(NumSeal(no)),
            NumDef::After(_) => None,
        }
    }

    fn resolve(&self, pub_id: PublicationId) -> NumSeal {
        match *self {
            NumDef::At(no) => NumSeal(no),
            NumDef::After(no) => NumSeal(pub_id.0 + no),
        }
    }

    fn to_text(&self) -> String { format!("{self:?}") }
}

impl RgbSeal for NumSeal {
    type Definition = NumDef;
    type PubWitness = Publication;
    type CliWitness = Opid;
    type PubId = PublicationId;
    type ClosingError = NotClosed;

    fn pub_id(published: &Publication) -> PublicationId { PublicationId(published.id) }

    fn verify_seals_closing(
        published: &Publication,
        client: &Opid,
        seals: &Vec<NumSeal>,
        message: Opid,
    ) -> Result<(), NotClosed> {
        for seal in seals {
            if !published.closes.contains(&seal.0) {
                return Err(NotClosed::Seal(seal.0));
            }
        }
        if *client == message {
            Ok(())
        } else {
            Err(NotClosed::Message)
        }
    }
}

type Block = OperationSeals<NumSeal>;

type Failure = VerificationError<NumSeal, Broken>;

/// A stream of blocks, each with an id to hand over in place of the computed one.
struct Stream(IntoIter<Result<(Option<Opid>, Block), Broken>>);

impl ReadOperation for Stream {
    type Seal = NumSeal;
    type Error = Broken;

    fn read_operation(&mut self) -> Result<Option<Block>, Broken> {
        self.0.next().transpose().map(|next| next.map(|(_, block)| block))
    }

    fn read_operation_with_opid(&mut self) -> Result<Option<(Opid, Block)>, Broken> {
        let next = self.0.next().transpose()?;
        Ok(next.map(|(memo, block)| (memo.unwrap_or_else(|| block.operation.opid()), block)))
    }
}

/// A reader which has no ids to hand over.
struct PlainStream(IntoIter<Block>);

impl ReadOperation for PlainStream {
    type Seal = NumSeal;
    type Error = Broken;

    fn read_operation(&mut self) -> Result<Option<Block>, Broken> { Ok(self.0.next()) }
}

#[derive(Clone, PartialEq, Debug)]
enum Call {
    Operation(Opid),
    Stage(Opid),
    Seals(Opid, BTreeMap<u16, NumDef>),
    Witness(Opid, u64),
}

#[derive(Default)]
struct Cells {
    owned: HashMap<CellAddress, DestructibleCell>,
    global: HashMap<CellAddress, StateValue>,
}

impl Memory for Cells {
    fn destructible(&self, addr: CellAddress) -> Option<DestructibleCell> {
        self.owned.get(&addr).copied()
    }
    fn immutable(&self, addr: CellAddress) -> Option<StateValue> { self.global.get(&addr).copied() }
}

#[derive(Default)]
struct Libs(HashMap<LibraryId, Lib>);

impl LibRepo for Libs {
    fn get_lib(&self, lib_id: LibraryId) -> Option<&Lib> { self.0.get(&lib_id) }
}

struct Ledger {
    codex: Codex,
    libs: Libs,
    cells: Cells,
    known: BTreeSet<Opid>,
    known_witnesses: BTreeSet<Opid>,
    known_definitions: BTreeSet<Opid>,
    known_seals: HashMap<CellAddress, NumSeal>,
    calls: Vec<Call>,
}

impl Ledger {
    fn add_cells(&mut self, opid: Opid, operation: &ContractOperation) {
        let parts = operation.parts();
        for (no, cell) in parts.destructible_out.iter().enumerate() {
            self.cells.owned.insert(CellAddress::new(opid, no as u16), *cell);
        }
        for (no, data) in parts.immutable_out.iter().enumerate() {
            self.cells.global.insert(CellAddress::new(opid, no as u16), data.value);
        }
    }
}

impl ContractApi<NumSeal> for Ledger {
    type Memory = Cells;
    type Repo = Libs;

    fn contract_id(&self) -> ContractId { CONTRACT }
    fn codex(&self) -> &Codex { &self.codex }
    fn repo(&self) -> &Libs { &self.libs }
    fn memory(&self) -> &Cells { &self.cells }
    fn is_known(&self, opid: Opid) -> bool { self.known.contains(&opid) }
    fn is_witness_known(&mut self, opid: Opid, _: &SealWitness<NumSeal>) -> bool {
        self.known_witnesses.contains(&opid)
    }
    fn known_seal(&mut self, addr: CellAddress) -> Option<NumSeal> {
        self.known_seals.get(&addr).copied()
    }
    fn are_seals_known(&mut self, opid: Opid, _: &DefinedSeals<NumDef>) -> bool {
        self.known_definitions.contains(&opid)
    }
    fn apply_operation(&mut self, operation: VerifiedOperation) {
        let opid = operation.opid();
        assert_eq!(opid, operation.as_operation().opid());
        self.calls.push(Call::Operation(opid));
        self.add_cells(opid, &operation.into_operation());
    }
    fn stage_known_operation(&mut self, opid: Opid, operation: &ContractOperation) {
        self.calls.push(Call::Stage(opid));
        self.add_cells(opid, operation);
    }
    fn apply_seals(&mut self, opid: Opid, seals: DefinedSeals<NumDef>) {
        self.calls.push(Call::Seals(opid, seals.as_map().clone()));
    }
    fn apply_witness(&mut self, opid: Opid, witness: SealWitness<NumSeal>) {
        self.calls.push(Call::Witness(opid, witness.published.id));
    }
}

const CONTRACT: ContractId = ContractId { hi: 7, lo: 11 };

fn script(instructions: Vec<CtrlInstr<LibId>>) -> Lib {
    let code: Vec<Instr<LibId>> = instructions.into_iter().map(Instr::from).collect();
    Lib::assemble(&code).unwrap()
}

fn accepting() -> Lib { script(vec![CtrlInstr::Stop]) }

fn refusing() -> Lib { script(vec![CtrlInstr::FailCk, CtrlInstr::Stop]) }

fn library_id(lib: &Lib) -> LibraryId { LibraryId::from_byte_array(lib.lib_id().to_byte_array()) }

/// Method 0 accepts, method 1 refuses; there are no others.
fn codex() -> Codex {
    Codex {
        name: TinyString::try_from("NumCodex".to_string()).unwrap(),
        developer: Identity::default(),
        version: Default::default(),
        features: Default::default(),
        timestamp: 1732529307,
        field_order: FIELD_ORDER_SECP,
        input_config: CoreConfig::default(),
        verification_config: CoreConfig::default(),
        verifiers: TinyOrdMap::from_iter_checked([
            (0, LibSite::new(accepting().lib_id(), 0)),
            (1, LibSite::new(refusing().lib_id(), 0)),
        ]),
    }
}

fn codex_id() -> CodexId { CodexId::from_byte_array(codex().codex_id().to_byte_array()) }

fn ledger() -> Ledger {
    let libs = [accepting(), refusing()].into_iter().map(|lib| (library_id(&lib), lib)).collect();
    Ledger {
        codex: codex(),
        libs: Libs(libs),
        cells: Cells::default(),
        known: BTreeSet::new(),
        known_witnesses: BTreeSet::new(),
        known_definitions: BTreeSet::new(),
        known_seals: HashMap::new(),
        calls: vec![],
    }
}

fn parts(nonce: u64, inputs: &[CellAddress], outputs: &[NumDef]) -> OperationParts {
    OperationParts {
        contract_id: CONTRACT,
        call_id: 0,
        nonce: fe256::from(nonce),
        witness: StateValue::None,
        destructible_in: inputs
            .iter()
            .map(|addr| Input { addr: *addr, witness: StateValue::None })
            .collect(),
        immutable_in: vec![],
        destructible_out: outputs
            .iter()
            .map(|def| DestructibleCell {
                data: StateValue::None,
                auth: def.auth_token(),
                lock: None,
            })
            .collect(),
        immutable_out: vec![],
    }
}

fn made(parts: OperationParts) -> ContractOperation {
    match ContractOperation::new(parts) {
        Ok(operation) => operation,
        Err(_) => panic!("the lists fit"),
    }
}

fn definitions(defined: &[(u16, NumDef)]) -> DefinedSeals<NumDef> {
    DefinedSeals::from_map(defined.iter().copied().collect()).unwrap()
}

fn block(operation: ContractOperation, defined: &[(u16, NumDef)]) -> Block {
    OperationSeals { operation, defined_seals: definitions(defined), witness: None }
}

/// A block whose witness closes the seals over its operation.
fn witnessed(
    operation: ContractOperation,
    defined: &[(u16, NumDef)],
    id: u64,
    closes: &[u64],
) -> Block {
    let client = operation.opid();
    OperationSeals {
        operation,
        defined_seals: definitions(defined),
        witness: Some(SealWitness { published: Publication { id, closes: closes.to_vec() }, client }),
    }
}

/// A genesis with a seal at 1, the id which it gets, and the ledger which knows it.
fn start() -> (Ledger, Block, Opid) {
    let mut ledger = ledger();
    let outputs = [NumDef::At(1)];
    let genesis = made(parts(0, &[], &outputs));
    let opid = genesis.opid();
    ledger.known.insert(opid);
    ledger.add_cells(opid, &genesis);
    let mut committing = parts(0, &[], &outputs);
    let codex_id = codex_id();
    committing.contract_id = ContractId { hi: codex_id.hi, lo: codex_id.lo };
    (ledger, block(made(committing), &[(0, NumDef::At(1))]), opid)
}

fn verify(ledger: &mut Ledger, blocks: Vec<Block>) -> Result<(), Failure> {
    let items: Vec<_> = blocks.into_iter().map(|block| Ok((None, block))).collect();
    ledger.evaluate(Stream(items.into_iter()), false, &mut Journal::new())
}

fn cell(opid: Opid, pos: u16) -> CellAddress { CellAddress::new(opid, pos) }

fn seals(opid: Opid, defined: &[(u16, NumDef)]) -> Call {
    Call::Seals(opid, defined.iter().copied().collect())
}

#[test]
fn accepted_blocks_are_applied_in_order() {
    let (mut ledger, genesis, g) = start();
    let transfer = made(parts(1, &[cell(g, 0)], &[NumDef::At(2), NumDef::After(5)]));
    let t = transfer.opid();
    let next = made(parts(2, &[cell(t, 0), cell(t, 1)], &[]));
    let n = next.opid();
    let defined = [(0, NumDef::At(2)), (1, NumDef::After(5))];

    let result = verify(&mut ledger, vec![
        genesis,
        witnessed(transfer, &defined, 100, &[1]),
        witnessed(next, &[], 200, &[2, 105]),
    ]);
    assert!(result.is_ok());
    assert_eq!(ledger.calls, vec![
        seals(g, &[(0, NumDef::At(1))]),
        Call::Witness(t, 100),
        Call::Operation(t),
        seals(t, &defined),
        Call::Witness(n, 200),
        Call::Operation(n),
    ]);
}

#[test]
fn ids_are_computed_where_the_reader_has_none() {
    let (mut ledger, genesis, g) = start();
    let transfer = made(parts(1, &[cell(g, 0)], &[]));
    let t = transfer.opid();
    let blocks = vec![genesis, witnessed(transfer, &[], 100, &[1])];
    assert!(ledger.evaluate(PlainStream(blocks.into_iter()), true, &mut Journal::new()).is_ok());
    assert_eq!(ledger.calls, vec![
        seals(g, &[(0, NumDef::At(1))]),
        Call::Witness(t, 100),
        Call::Operation(t),
    ]);
}

#[test]
fn closed_seal_cannot_be_closed_again() {
    let (mut ledger, genesis, g) = start();
    let first = made(parts(1, &[cell(g, 0)], &[]));
    let f = first.opid();
    let second = made(parts(2, &[cell(g, 0)], &[]));
    let result = verify(&mut ledger, vec![
        genesis,
        witnessed(first, &[], 100, &[1]),
        witnessed(second, &[], 200, &[1]),
    ]);
    assert!(matches!(result, Err(VerificationError::SealUnknown(addr)) if addr == cell(g, 0)));
    assert_eq!(ledger.calls, vec![
        seals(g, &[(0, NumDef::At(1))]),
        Call::Witness(f, 100),
        Call::Operation(f),
    ]);
}

#[test]
fn same_input_twice_needs_a_known_seal() {
    let (mut ledger, genesis, g) = start();
    let twice = made(parts(1, &[cell(g, 0), cell(g, 0)], &[]));
    let t = twice.opid();
    let blocks = vec![genesis, witnessed(twice, &[], 100, &[1])];
    let result = verify(&mut ledger, blocks.clone());
    assert!(matches!(result, Err(VerificationError::SealUnknown(addr)) if addr == cell(g, 0)));

    ledger.calls.clear();
    ledger.known_seals.insert(cell(g, 0), NumSeal(1));
    assert!(verify(&mut ledger, blocks).is_ok());
    assert_eq!(ledger.calls[1..], [Call::Witness(t, 100), Call::Operation(t)]);
}

#[test]
fn seal_of_the_consignment_comes_before_the_known_one() {
    let (mut ledger, genesis, g) = start();
    ledger.known_seals.insert(cell(g, 0), NumSeal(77));
    let transfer = made(parts(1, &[cell(g, 0)], &[]));
    let result = verify(&mut ledger, vec![genesis, witnessed(transfer, &[], 100, &[77])]);
    match result {
        Err(VerificationError::SealsNotClosed(_, _, error)) => {
            assert_eq!(error, NotClosed::Seal(1))
        }
        _ => panic!("closed a seal which is not that of the consignment"),
    }
}

#[test]
fn known_seal_stands_for_an_omitted_ancestor() {
    let (mut ledger, genesis, _) = start();
    let ancestor = made(parts(5, &[], &[NumDef::At(9)]));
    let a = ancestor.opid();
    ledger.add_cells(a, &ancestor);
    ledger.known_seals.insert(cell(a, 0), NumSeal(9));
    let transfer = made(parts(1, &[cell(a, 0)], &[]));
    let t = transfer.opid();
    assert!(verify(&mut ledger, vec![genesis, witnessed(transfer, &[], 100, &[9])]).is_ok());
    assert_eq!(ledger.calls[1..], [Call::Witness(t, 100), Call::Operation(t)]);
}

#[test]
fn fully_known_operation_is_staged_and_not_applied() {
    let (mut ledger, genesis, g) = start();
    let known = made(parts(1, &[cell(g, 0)], &[NumDef::At(3)]));
    let k = known.opid();
    ledger.known.insert(k);
    ledger.known_witnesses.insert(k);
    ledger.known_definitions.insert(k);
    // Neither the definitions nor the witness would be accepted, but they are not looked at.
    let stale = witnessed(known, &[(8, NumDef::At(4))], 100, &[]);
    let spent = made(parts(2, &[cell(g, 0)], &[]));
    let result = verify(&mut ledger, vec![genesis, stale, witnessed(spent, &[], 200, &[1])]);
    assert!(matches!(result, Err(VerificationError::SealUnknown(addr)) if addr == cell(g, 0)));
    assert_eq!(ledger.calls, vec![
        seals(g, &[(0, NumDef::At(1))]),
        Call::Witness(k, 100),
        Call::Stage(k),
        seals(k, &[(8, NumDef::At(4))]),
    ]);
}

#[test]
fn known_operation_with_new_witness_is_not_applied_again() {
    let (mut ledger, genesis, g) = start();
    let known = made(parts(1, &[cell(g, 0)], &[NumDef::At(3)]));
    let k = known.opid();
    ledger.known.insert(k);
    let result = verify(&mut ledger, vec![genesis, witnessed(known, &[(0, NumDef::At(3))], 100, &[1])]);
    assert!(result.is_ok());
    assert_eq!(ledger.calls[1..], [Call::Witness(k, 100), seals(k, &[(0, NumDef::At(3))])]);
}

#[test]
fn known_witness_is_applied_without_being_verified_again() {
    let (mut ledger, genesis, g) = start();
    let known = made(parts(1, &[cell(g, 0)], &[NumDef::At(3)]));
    let k = known.opid();
    ledger.known.insert(k);
    ledger.known_witnesses.insert(k);
    // The witness closes nothing; the definitions are still compared.
    let accepted = witnessed(known.clone(), &[(0, NumDef::At(3))], 100, &[]);
    assert!(verify(&mut ledger, vec![genesis.clone(), accepted]).is_ok());
    assert_eq!(ledger.calls[1..], [Call::Witness(k, 100), seals(k, &[(0, NumDef::At(3))])]);

    let refused = witnessed(known, &[(0, NumDef::At(4))], 100, &[]);
    let result = verify(&mut ledger, vec![genesis, refused]);
    assert!(matches!(result, Err(VerificationError::SealsDefinitionMismatch { .. })));
}

#[test]
fn witness_of_unknown_operation_is_always_verified() {
    let (mut ledger, genesis, g) = start();
    let transfer = made(parts(1, &[cell(g, 0)], &[]));
    let t = transfer.opid();
    ledger.known_witnesses.insert(t);
    ledger.known_definitions.insert(t);
    let result = verify(&mut ledger, vec![genesis, witnessed(transfer, &[], 100, &[])]);
    match result {
        Err(VerificationError::SealsNotClosed(id, opid, error)) => {
            assert_eq!(id, PublicationId(100));
            assert_eq!(opid, t);
            assert_eq!(error, NotClosed::Seal(1));
        }
        _ => panic!("accepted a witness which closes nothing"),
    }
    assert_eq!(ledger.calls, vec![seals(g, &[(0, NumDef::At(1))])]);
}

#[test]
fn witness_must_close_over_the_operation() {
    let (mut ledger, genesis, g) = start();
    let transfer = made(parts(1, &[cell(g, 0)], &[]));
    let mut unrelated = witnessed(transfer, &[], 100, &[1]);
    unrelated.witness.as_mut().unwrap().client = g;
    let error = verify(&mut ledger, vec![genesis, unrelated]).unwrap_err();
    assert!(error.to_text().starts_with(
        "single-use seals are not closed properly with witness #100 for operation "
    ));
    assert!(error.to_text().ends_with(".\nDetails: Message"));
}

#[test]
fn operation_which_destroys_nothing_needs_no_witness() {
    let (mut ledger, genesis, _) = start();
    let issue = made(parts(1, &[], &[NumDef::At(4)]));
    let i = issue.opid();
    let defined = [(0, NumDef::At(4))];
    assert!(verify(&mut ledger, vec![genesis, block(issue, &defined)]).is_ok());
    assert_eq!(ledger.calls[1..], [Call::Operation(i), seals(i, &defined)]);
}

#[test]
fn relative_seal_without_witness_is_not_opened() {
    let (mut ledger, genesis, _) = start();
    let issue = made(parts(1, &[], &[NumDef::After(4)]));
    let i = issue.opid();
    let transfer = made(parts(2, &[cell(i, 0)], &[]));
    let result = verify(&mut ledger, vec![
        genesis,
        block(issue, &[(0, NumDef::After(4))]),
        witnessed(transfer, &[], 100, &[4]),
    ]);
    assert!(matches!(result, Err(VerificationError::SealUnknown(addr)) if addr == cell(i, 0)));
}

#[test]
fn some_definitions_may_be_left_out() {
    let (mut ledger, genesis, _) = start();
    let outputs = [NumDef::At(4), NumDef::At(5), NumDef::At(6)];
    let issue = made(parts(1, &[], &outputs));
    let i = issue.opid();
    let defined = [(1, NumDef::At(5))];
    assert!(verify(&mut ledger, vec![genesis, block(issue, &defined)]).is_ok());
    assert_eq!(ledger.calls[1..], [Call::Operation(i), seals(i, &defined)]);
}

#[test]
fn definition_beyond_the_outputs_is_refused() {
    let (mut ledger, genesis, _) = start();
    let issue = made(parts(1, &[], &[NumDef::At(4), NumDef::At(4)]));
    let i = issue.opid();
    let result = verify(&mut ledger, vec![
        genesis,
        block(issue, &[(0, NumDef::At(4)), (2, NumDef::After(4))]),
    ]);
    match result {
        Err(VerificationError::SealsDefinitionMismatch { opid, reported, defined, sources }) => {
            assert_eq!(opid, i);
            assert_eq!(reported, BTreeSet::from([(1, 4), (2, 4)]));
            assert_eq!(defined, BTreeSet::from([(1, 4)]));
            assert_eq!(
                sources,
                BTreeMap::from([(0, "At(4)".to_string()), (2, "After(4)".to_string())])
            );
        }
        _ => panic!("accepted a definition without an output"),
    }
}

#[test]
fn failed_read_ends_the_verification() {
    let (mut ledger, genesis, g) = start();
    let items: Vec<Result<(Option<Opid>, Block), Broken>> = vec![Ok((None, genesis)), Err(Broken)];
    let error = ledger.evaluate(Stream(items.into_iter()), false, &mut Journal::new()).unwrap_err();
    assert!(matches!(error, VerificationError::Stream(Broken)));
    assert_eq!(
        error.to_text(),
        "error reading the consignment stream.\nDetails: the line is broken"
    );
    assert_eq!(ledger.calls, vec![seals(g, &[(0, NumDef::At(1))])]);
}

#[test]
fn id_from_the_reader_is_taken_as_it_is() {
    let (mut ledger, genesis, _) = start();
    let issue = made(parts(1, &[], &[NumDef::At(4)]));
    let i = issue.opid();
    let memo = Opid { hi: 3, lo: 5 };
    let defined = [(0, NumDef::At(4))];
    let items = vec![Ok((Some(memo), genesis)), Ok((Some(memo), block(issue, &defined)))];
    assert!(ledger.evaluate(Stream(items.into_iter()), false, &mut Journal::new()).is_ok());
    assert_eq!(ledger.calls[1..], [Call::Operation(i), seals(memo, &defined)]);
}

#[test]
fn wrong_id_from_the_reader_is_found_when_told_to() {
    let (mut ledger, genesis, g) = start();
    let issue = made(parts(1, &[], &[NumDef::At(4)]));
    let i = issue.opid();
    let memo = Opid { hi: 3, lo: 5 };
    let items = vec![Ok((Some(memo), genesis)), Ok((Some(memo), block(issue, &[])))];
    let error = ledger.evaluate(Stream(items.into_iter()), true, &mut Journal::new()).unwrap_err();
    assert!(matches!(
        error,
        VerificationError::OpidMemoMismatch { memoized, recomputed }
            if memoized == memo && recomputed == i
    ));
    assert!(error
        .to_text()
        .starts_with("RGB verify opid memo mismatch (non-genesis): memoized "));
    // The id which comes with the genesis is never used.
    assert_eq!(ledger.calls, vec![seals(g, &[(0, NumDef::At(1))])]);
}

#[test]
fn unknown_genesis_is_verified_but_not_applied() {
    let (mut ledger, genesis, g) = start();
    ledger.known.clear();
    assert!(verify(&mut ledger, vec![genesis]).is_ok());
    assert_eq!(ledger.calls, vec![seals(g, &[(0, NumDef::At(1))])]);

    let mut refused = parts(0, &[], &[]);
    let codex_id = codex_id();
    refused.contract_id = ContractId { hi: codex_id.hi, lo: codex_id.lo };
    refused.call_id = 1;
    let result = verify(&mut ledger, vec![block(made(refused), &[])]);
    assert!(matches!(result, Err(VerificationError::Vm(CallFailure::ScriptUnspecified))));
}

#[test]
fn fully_known_genesis_is_followed_by_another_genesis() {
    let (mut ledger, mut genesis, g) = start();
    ledger.known_witnesses.insert(g);
    ledger.known_definitions.insert(g);
    genesis.witness = Some(SealWitness { published: Publication { id: 1, closes: vec![] }, client: g });
    let issue = made(parts(1, &[], &[]));
    let result = verify(&mut ledger, vec![genesis.clone(), genesis, block(issue, &[])]);
    assert!(matches!(result, Err(VerificationError::NoCodexCommitment)));
    let defined = [(0, NumDef::At(1))];
    assert_eq!(ledger.calls, vec![
        Call::Witness(g, 1),
        seals(g, &defined),
        Call::Witness(g, 1),
        seals(g, &defined),
    ]);
}

#[test]
fn accepted_consignment_is_accepted_again_once_it_is_known() {
    let (mut ledger, genesis, g) = start();
    let transfer = made(parts(1, &[cell(g, 0)], &[NumDef::At(2)]));
    let t = transfer.opid();
    let issue = made(parts(2, &[], &[NumDef::At(3)]));
    let i = issue.opid();
    let defined = [(0, NumDef::At(2))];
    let blocks =
        vec![genesis, witnessed(transfer, &defined, 100, &[1]), block(issue, &[(0, NumDef::At(3))])];
    assert!(verify(&mut ledger, blocks.clone()).is_ok());
    assert!(ledger.calls.contains(&Call::Operation(t)));
    assert!(ledger.calls.contains(&Call::Operation(i)));

    ledger.known.extend([t, i]);
    ledger.known_witnesses.insert(t);
    ledger.calls.clear();
    assert!(verify(&mut ledger, blocks.clone()).is_ok());
    let expected = vec![
        seals(g, &[(0, NumDef::At(1))]),
        Call::Witness(t, 100),
        seals(t, &defined),
        seals(i, &[(0, NumDef::At(3))]),
    ];
    assert_eq!(ledger.calls, expected);

    ledger.known_definitions.insert(t);
    ledger.calls.clear();
    assert!(verify(&mut ledger, blocks).is_ok());
    assert!(ledger.calls.contains(&Call::Stage(t)));
    assert!(!ledger.calls.iter().any(|call| matches!(call, Call::Operation(_))));
}

#[test]
fn blocks_before_a_refused_one_are_a_valid_consignment() {
    let (mut failing, genesis, g) = start();
    let (mut shorter, _, _) = start();
    let transfer = made(parts(1, &[cell(g, 0)], &[]));
    let again = made(parts(2, &[cell(g, 0)], &[]));
    let valid = vec![genesis, witnessed(transfer, &[], 100, &[1])];
    let mut longer = valid.clone();
    longer.push(witnessed(again, &[], 200, &[1]));
    assert!(verify(&mut failing, longer).is_err());
    assert!(verify(&mut shorter, valid).is_ok());
    assert_eq!(failing.calls, shorter.calls);
}

/// A contract which leaves the answers to the defaults.
struct Plain(Ledger);

impl ContractApi<NumSeal> for Plain {
    type Memory = Cells;
    type Repo = Libs;

    fn contract_id(&self) -> ContractId { self.0.contract_id() }
    fn codex(&self) -> &Codex { self.0.codex() }
    fn repo(&self) -> &Libs { self.0.repo() }
    fn memory(&self) -> &Cells { self.0.memory() }
    fn is_known(&self, opid: Opid) -> bool { self.0.is_known(opid) }
    fn apply_operation(&mut self, operation: VerifiedOperation) { self.0.apply_operation(operation) }
    fn apply_seals(&mut self, opid: Opid, seals: DefinedSeals<NumDef>) {
        self.0.apply_seals(opid, seals)
    }
    fn apply_witness(&mut self, opid: Opid, witness: SealWitness<NumSeal>) {
        self.0.apply_witness(opid, witness)
    }
}

#[test]
fn default_answers_keep_the_full_verification() {
    let (mut ledger, genesis, g) = start();
    let known = made(parts(1, &[cell(g, 0)], &[]));
    let k = known.opid();
    ledger.known.insert(k);
    ledger.known_witnesses.insert(k);
    ledger.known_definitions.insert(k);
    ledger.known_seals.insert(cell(g, 0), NumSeal(1));
    let mut plain = Plain(ledger);

    let witness = witnessed(known.clone(), &[], 100, &[]);
    let items = vec![Ok((None, genesis.clone())), Ok((None, witness))];
    let result = plain.evaluate(Stream(items.into_iter()), false, &mut Journal::new());
    assert!(matches!(result, Err(VerificationError::SealsNotClosed(..))));

    plain.0.calls.clear();
    let witness = witnessed(known, &[], 100, &[1]);
    let items = vec![Ok((None, genesis)), Ok((None, witness))];
    assert!(plain.evaluate(Stream(items.into_iter()), false, &mut Journal::new()).is_ok());
    assert_eq!(plain.0.calls[1..], [Call::Witness(k, 100)]);
    assert_eq!(plain.known_seal(cell(g, 0)).map(|seal| seal.0), None);
    assert!(!plain.are_seals_known(k, &definitions(&[])));
}

#[test]
fn journal_goes_on_over_consignments() {
    let (mut ledger, genesis, g) = start();
    let mut journal = Journal::new();
    for _ in 0..2 {
        let items: Vec<Result<(Option<Opid>, Block), Broken>> = vec![Ok((None, genesis.clone()))];
        assert!(ledger.evaluate(Stream(items.into_iter()), false, &mut journal).is_ok());
    }
    let defined = seals(g, &[(0, NumDef::At(1))]);
    assert_eq!(ledger.calls, vec![defined.clone(), defined]);
}

#[test]
fn journal_hands_over_what_is_read() {
    let (_, genesis, _) = start();
    let opid = genesis.operation.opid();
    let memo = Opid { hi: 3, lo: 5 };
    let items = vec![Ok((Some(memo), genesis.clone())), Ok((None, genesis)), Err(Broken)];
    let mut reader = Stream(items.into_iter());
    let mut journal = Journal::new();
    assert!(matches!(journal.read(&mut reader), Ok(Some((id, _))) if id == memo));
    assert!(matches!(journal.read(&mut reader), Ok(Some((id, _))) if id == opid));
    assert!(matches!(journal.read(&mut reader), Err(Broken)));
    assert!(matches!(journal.read(&mut reader), Ok(None)));
}

#[test]
fn journal_asks_and_calls_the_contract() {
    let (mut ledger, _, g) = start();
    ledger.known_witnesses.insert(g);
    ledger.known_definitions.insert(g);
    ledger.known_seals.insert(cell(g, 0), NumSeal(1));
    let mut journal = Journal::new();
    let witness = || SealWitness { published: Publication { id: 5, closes: vec![] }, client: g };
    let other = Opid { hi: 0, lo: 0 };
    assert!(journal.is_witness_known(&mut ledger, g, &witness()));
    assert!(!journal.is_witness_known(&mut ledger, other, &witness()));
    assert!(journal.are_seals_known(&mut ledger, g, &definitions(&[])));
    assert!(!journal.are_seals_known(&mut ledger, other, &definitions(&[])));
    assert_eq!(journal.known_seal(&mut ledger, cell(g, 0)), Some(NumSeal(1)));
    assert_eq!(journal.known_seal(&mut ledger, cell(g, 1)), None);

    let defined = [(0, NumDef::At(1))];
    journal.apply_witness(&mut ledger, g, witness());
    journal.stage_known_operation(&mut ledger, g, &made(parts(1, &[], &[])));
    journal.apply_seals(&mut ledger, g, definitions(&defined));
    assert_eq!(ledger.calls, vec![Call::Witness(g, 5), Call::Stage(g), seals(g, &defined)]);
}

#[test]
fn addresses_are_told_as_by_the_virtual_machine() {
    for pos in [0, 9, 10, 408, 65535] {
        let outer = ultrasonic::CellAddr::new(ultrasonic::Opid::from_byte_array([3; 32]), pos);
        let error = Failure::SealUnknown(cell(Opid::from_byte_array([3; 32]), pos));
        let expected = format!("unknown seal definition for cell address {outer}.");
        assert_eq!(error.to_text(), expected);
    }
}

fn vm_failure(parts: OperationParts) -> CallFailure {
    let (mut ledger, genesis, _) = start();
    let result = verify(&mut ledger, vec![genesis, block(made(parts), &[])]);
    assert_eq!(ledger.calls.len(), 1);
    match result {
        Err(VerificationError::Vm(failure)) => failure,
        _ => panic!("not refused by the codex"),
    }
}

#[test]
fn codex_refuses_operation_of_another_contract() {
    let mut foreign = parts(1, &[], &[]);
    foreign.contract_id = ContractId { hi: 7, lo: 12 };
    assert!(matches!(
        vm_failure(foreign),
        CallFailure::WrongContract { expected, found }
            if expected == CONTRACT && found == ContractId { hi: 7, lo: 12 }
    ));
}

#[test]
fn codex_refuses_unknown_method() {
    let mut unknown = parts(1, &[], &[]);
    unknown.call_id = 9;
    assert!(matches!(vm_failure(unknown), CallFailure::NotFound(9)));
    let error = Failure::Vm(CallFailure::NotFound(9));
    assert_eq!(error.to_text(), "operation verifier 9 is not present in the codex.");
}

#[test]
fn codex_refuses_absent_cells() {
    let absent = cell(Opid { hi: 1, lo: 2 }, 3);
    let mut reading = parts(1, &[], &[]);
    reading.immutable_in = vec![absent];
    assert!(matches!(vm_failure(reading), CallFailure::NoImmutableInput(addr) if addr == absent));

    let (mut ledger, genesis, _) = start();
    ledger.known_seals.insert(absent, NumSeal(9));
    let spending = made(parts(1, &[absent], &[]));
    let result = verify(&mut ledger, vec![genesis, witnessed(spending, &[], 100, &[9])]);
    assert!(matches!(
        result,
        Err(VerificationError::Vm(CallFailure::NoReadOnceInput(addr))) if addr == absent
    ));
}

#[test]
fn codex_reads_present_cells() {
    let (mut ledger, genesis, g) = start();
    ledger.cells.global.insert(cell(g, 0), StateValue::None);
    let mut reading = parts(1, &[], &[]);
    reading.immutable_in = vec![cell(g, 0)];
    reading.immutable_out = vec![StateData::new(0u64, 5u64)];
    let reading = made(reading);
    let r = reading.opid();
    assert!(verify(&mut ledger, vec![genesis, block(reading, &[])]).is_ok());
    assert_eq!(ledger.calls[1..], [Call::Operation(r)]);
    assert!(ledger.cells.global.contains_key(&cell(r, 0)));
}

#[test]
fn script_refuses_operation() {
    let mut refused = parts(1, &[], &[]);
    refused.call_id = 1;
    assert!(matches!(vm_failure(refused), CallFailure::ScriptUnspecified));
}

#[test]
fn script_refuses_operation_with_a_code() {
    let code = [
        ultrasonic::Instr::Gfa(FieldInstr::PutD { dst: RegE::E1, data: fe256::from(42u8) }),
        ultrasonic::Instr::Ctrl(CtrlInstr::FailCk),
    ];
    let lib = Lib::assemble::<ultrasonic::Instr<LibId>>(&code).unwrap();
    let mut codex = codex();
    codex.verifiers = TinyOrdMap::from_iter_checked([(0, LibSite::new(lib.lib_id(), 0))]);
    let libs = Libs(HashMap::from([(library_id(&lib), lib)]));
    let operation = made(parts(1, &[], &[]));
    let result = verify_operation(&codex, CONTRACT, operation, &Cells::default(), &libs);
    assert!(matches!(result, Err(CallFailure::Script(code)) if code == fe256::from(42u8)));
}

#[test]
fn failures_are_told_as_by_the_virtual_machine() {
    let told = |failure: CallFailure| Failure::Vm(failure).to_text();
    let outer_id = ultrasonic::ContractId::from_byte_array([1; 32]);
    let id = ContractId::from_byte_array([1; 32]);
    let outer_other = ultrasonic::ContractId::from_byte_array([2; 32]);
    let other = ContractId::from_byte_array([2; 32]);
    let outer_addr = ultrasonic::CellAddr::new(ultrasonic::Opid::from_byte_array([3; 32]), 4);
    let addr = cell(Opid::from_byte_array([3; 32]), 4);
    let code = fe256::from(42u8);
    assert_eq!(
        told(CallFailure::WrongContract { expected: id, found: other }),
        ultrasonic::CallError::WrongContract { expected: outer_id, found: outer_other }.to_string()
    );
    assert_eq!(
        told(CallFailure::NoReadOnceInput(addr)),
        ultrasonic::CallError::NoReadOnceInput(outer_addr).to_string()
    );
    assert_eq!(
        told(CallFailure::NoImmutableInput(addr)),
        ultrasonic::CallError::NoImmutableInput(outer_addr).to_string()
    );
    assert_eq!(
        told(CallFailure::Lock(Some(code))),
        ultrasonic::CallError::Lock(Some(code)).to_string()
    );
    assert_eq!(told(CallFailure::Script(code)), ultrasonic::CallError::Script(code).to_string());
    assert_eq!(
        told(CallFailure::ScriptUnspecified),
        ultrasonic::CallError::ScriptUnspecified.to_string()
    );
}

#[test]
fn lock_refuses_operation() {
    let (mut ledger, genesis, g) = start();
    let lock = CellLock {
        aux: StateValue::None,
        script: Some(LibSite::new(refusing().lib_id(), 0)),
    };
    ledger.cells.owned.get_mut(&cell(g, 0)).unwrap().lock = Some(lock);
    let transfer = made(parts(1, &[cell(g, 0)], &[]));
    let result = verify(&mut ledger, vec![genesis, witnessed(transfer, &[], 100, &[1])]);
    assert!(matches!(result, Err(VerificationError::Vm(CallFailure::Lock(None)))));
}

#[test]
fn library_under_a_wrong_id_counts_as_unknown() {
    let mut libs = Libs::default();
    libs.0.insert(library_id(&accepting()), refusing());
    let operation = made(parts(1, &[], &[]));
    let result = verify_operation(&codex(), CONTRACT, operation, &Cells::default(), &libs);
    assert!(matches!(result, Err(CallFailure::ScriptUnspecified)));
}

#[test]
fn cells_are_read_at_the_address_which_the_codex_asks_for() {
    let addr = cell(Opid::from_byte_array([3; 32]), 4);
    let outer = ultrasonic::CellAddr::new(ultrasonic::Opid::from_byte_array([3; 32]), 4);
    let absent = ultrasonic::CellAddr::new(ultrasonic::Opid::from_byte_array([3; 32]), 5);
    let lock = CellLock { aux: StateValue::None, script: None };
    let owned = DestructibleCell {
        data: StateValue::new(0u64, 7u64),
        auth: AuthToken { hi: 1 << 64, lo: 2 },
        lock: Some(lock),
    };
    let mut cells = Cells::default();
    cells.owned.insert(addr, owned);
    cells.global.insert(addr, StateValue::new(0u64, 8u64));

    let reader = MemoryReader { memory: &cells };
    let mut token = [0u8; 32];
    token[0] = 2;
    token[24] = 1;
    let expected = ultrasonic::StateCell {
        data: StateValue::new(0u64, 7u64),
        auth: ultrasonic::AuthToken::from(fe256::from(token)),
        lock: Some(lock),
    };
    assert_eq!(ultrasonic::Memory::destructible(&reader, outer), Some(expected));
    assert_eq!(ultrasonic::Memory::destructible(&reader, absent), None);
    assert_eq!(ultrasonic::Memory::immutable(&reader, outer), Some(StateValue::new(0u64, 8u64)));
    assert_eq!(ultrasonic::Memory::immutable(&reader, absent), None);
}

#[test]
fn libraries_are_found_by_the_id_which_the_codex_asks_for() {
    let (known, unknown) = (accepting().lib_id(), refusing().lib_id());
    let mut libs = Libs::default();
    libs.0.insert(library_id(&accepting()), accepting());
    let reader = RepoReader { repo: &libs };
    let found = ultrasonic::LibRepo::get_lib(&reader, known).unwrap();
    assert_eq!(found.lib_id(), known);
    assert!(ultrasonic::LibRepo::get_lib(&reader, unknown).is_none());

    libs.0.insert(library_id(&refusing()), accepting());
    let reader = RepoReader { repo: &libs };
    assert!(ultrasonic::LibRepo::get_lib(&reader, unknown).is_none());
}

#[test]
fn verified_operation_keeps_its_parts() {
    let operation = made(parts(1, &[], &[NumDef::At(4)]));
    let opid = operation.opid();
    let verified =
        match verify_operation(&codex(), CONTRACT, operation, &Cells::default(), &ledger().libs) {
            Ok(verified) => verified,
            Err(_) => panic!("method 0 accepts"),
        };
    assert_eq!(verified.opid(), opid);
    assert_eq!(verified.as_operation().opid(), opid);
    let parts = verified.into_operation().into_parts();
    assert_eq!(parts.destructible_out.len(), 1);
    assert_eq!(parts.destructible_out[0].auth, AuthToken { hi: 1, lo: 4 });
}

#[test]
fn genesis_is_identified_with_the_contract_put_into_it() {
    let (_, mut genesis, g) = start();
    let setting = Setting { contract_id: CONTRACT, codex_id: codex_id(), memo_check: true };
    let identified = genesis.identify::<Broken>(setting, true, Opid { hi: 0, lo: 0 });
    assert!(matches!(identified, Ok(opid) if opid == g));
    assert_eq!(genesis.operation.contract_id(), CONTRACT);
    // It commits to the contract now, and so not to the codex.
    let again = genesis.identify::<Broken>(setting, true, g);
    assert!(matches!(again, Err(VerificationError::NoCodexCommitment)));
    let identified = genesis.identify::<Broken>(setting, false, g);
    assert!(matches!(identified, Ok(opid) if opid == g));
}

#[test]
fn blocks_can_be_verified_one_by_one() {
    let (mut ledger, genesis, g) = start();
    let setting = Setting { contract_id: CONTRACT, codex_id: codex_id(), memo_check: false };
    let mut verifier = Verifier::new(setting);
    let mut journal = Journal::new();
    assert!(verifier.verify_block::<_, Broken>(&mut journal, &mut ledger, g, genesis).is_ok());
    let transfer = made(parts(1, &[cell(g, 0)], &[]));
    let t = transfer.opid();
    let refused = block(transfer, &[]);
    let result = verifier.verify_block::<_, Broken>(&mut journal, &mut ledger, t, refused);
    assert!(matches!(result, Err(VerificationError::NoWitness(opid)) if opid == t));
}

#[test]
fn no_witness_closes_no_seals() {
    let opid = Opid { hi: 1, lo: 1 };
    let closed = verify_closing::<NumSeal, Broken>(opid, &None, &vec![]);
    assert!(closed.is_ok());
    let closed = verify_closing::<NumSeal, Broken>(opid, &None, &vec![NumSeal(1)]);
    assert!(matches!(closed, Err(VerificationError::NoWitness(id)) if id == opid));
}

#[test]
fn copy_of_a_block_is_the_same_block() {
    let (_, genesis, g) = start();
    let transfer = made(parts(1, &[cell(g, 0)], &[NumDef::At(2)]));
    let block = witnessed(transfer, &[(0, NumDef::At(2))], 100, &[1]);
    let copy = block.clone();
    assert_eq!(copy.operation.opid(), block.operation.opid());
    assert_eq!(copy.defined_seals.as_map(), block.defined_seals.as_map());
    let (copied, witness) = (copy.witness.unwrap(), block.witness.unwrap());
    assert_eq!(copied.published, witness.published);
    assert_eq!(copied.client, witness.client);
    assert!(genesis.clone().witness.is_none());
}
