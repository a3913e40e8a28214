//! Verification of consignments whose seals are bitcoin transaction outputs.
use std::collections::{BTreeMap, HashMap};
use std::vec::IntoIter;

use amplify::confinement::{SmallVec, TinyOrdMap, TinyString};
use amplify::ByteArray;
use bp::seals::{Anchor, TxoSeal, TxoSealExt, WOutpoint, WTxoSeal};
use bp::{Outpoint, Sats, ScriptPubkey, SeqNo, Tx, TxIn, TxOut, Txid, Vout};
use commit_verify::CommitId;
use single_use_seals::{PublishedWitness, SealError};
use strict_encoding::StrictDumb;
use ultrasonic::aluvm::alu::isa::{CtrlInstr, Instr};
use ultrasonic::aluvm::alu::{CoreConfig, Lib, LibId, LibSite};
use ultrasonic::aluvm::FIELD_ORDER_SECP;
use ultrasonic::{
    fe256, AuthToken, CellAddr, Codex, CodexId, ContractId, Genesis, Identity, Input, Operation,
    Opid, StateCell, StateData, StateValue,
};

use rgb_verify::codex::{LibRepo, Memory, VerifiedOperation};
use rgb_verify::ids;
use rgb_verify::journal::Journal;
use rgb_verify::operation::{ContractOperation, DestructibleCell, OperationParts};
use rgb_verify::seals::{DefinedSeals, RgbSeal, RgbSealDef, SealWitness};
use rgb_verify::text::Described;
use rgb_verify::{ContractApi, ContractVerify, OperationSeals, ReadOperation, VerificationError};

fn halves(bytes: [u8; 32]) -> (u128, u128) {
    (
        u128::from_be_bytes(bytes[..16].try_into().unwrap()),
        u128::from_be_bytes(bytes[16..].try_into().unwrap()),
    )
}

fn joined(hi: u128, lo: u128) -> [u8; 32] {
    let mut bytes = [0u8; 32];
    bytes[..16].copy_from_slice(&hi.to_be_bytes());
    bytes[16..].copy_from_slice(&lo.to_be_bytes());
    bytes
}

fn opid_in(opid: Opid) -> ids::Opid { ids::Opid::from_byte_array(opid.to_byte_array()) }

fn opid_out(opid: ids::Opid) -> Opid { Opid::from_byte_array(joined(opid.hi, opid.lo)) }

fn contract_id_in(id: ContractId) -> ids::ContractId {
    ids::ContractId::from_byte_array(id.to_byte_array())
}

fn addr_in(addr: CellAddr) -> ids::CellAddress {
    ids::CellAddress::new(opid_in(addr.opid), addr.pos)
}

fn addr_out(addr: ids::CellAddress) -> CellAddr { CellAddr::new(opid_out(addr.opid), addr.pos) }

fn token_in(token: AuthToken) -> ids::AuthToken {
    let bytes = token.to_fe256().to_u256().to_le_bytes();
    ids::AuthToken {
        hi: u128::from_le_bytes(bytes[16..].try_into().unwrap()),
        lo: u128::from_le_bytes(bytes[..16].try_into().unwrap()),
    }
}

fn token_out(token: ids::AuthToken) -> AuthToken {
    let mut bytes = [0u8; 32];
    bytes[..16].copy_from_slice(&token.lo.to_le_bytes());
    bytes[16..].copy_from_slice(&token.hi.to_le_bytes());
    AuthToken::from(fe256::from(bytes))
}

fn cell_in(cell: StateCell) -> DestructibleCell {
    DestructibleCell { data: cell.data, auth: token_in(cell.auth), lock: cell.lock }
}

fn operation_in(operation: Operation) -> ContractOperation {
    let made = ContractOperation::new(OperationParts {
        contract_id: contract_id_in(operation.contract_id),
        call_id: operation.call_id,
        nonce: operation.nonce,
        witness: operation.witness,
        destructible_in: operation
            .destructible_in
            .iter()
            .map(|input| rgb_verify::operation::Input {
                addr: addr_in(input.addr),
                witness: input.witness,
            })
            .collect(),
        immutable_in: operation.immutable_in.iter().map(|addr| addr_in(*addr)).collect(),
        destructible_out: operation.destructible_out.iter().map(|cell| cell_in(*cell)).collect(),
        immutable_out: operation.immutable_out.iter().cloned().collect(),
    });
    match made {
        Ok(operation) => operation,
        Err(_) => panic!("lists of an encoded operation fit"),
    }
}

fn operation_out(operation: &ContractOperation) -> Operation {
    let parts = operation.parts();
    Operation {
        version: Default::default(),
        contract_id: ContractId::from_byte_array(joined(parts.contract_id.hi, parts.contract_id.lo)),
        call_id: parts.call_id,
        nonce: parts.nonce,
        witness: parts.witness,
        destructible_in: SmallVec::from_iter_checked(parts.destructible_in.iter().map(|input| Input {
            addr: addr_out(input.addr),
            witness: input.witness,
        })),
        immutable_in: SmallVec::from_iter_checked(
            parts.immutable_in.iter().map(|addr| addr_out(*addr)),
        ),
        destructible_out: SmallVec::from_iter_checked(parts.destructible_out.iter().map(|cell| {
            StateCell { data: cell.data, auth: token_out(cell.auth), lock: cell.lock }
        })),
        immutable_out: SmallVec::from_iter_checked(parts.immutable_out.iter().cloned()),
    }
}

#[derive(Copy, Clone)]
struct TxSeal(TxoSeal);

#[derive(Copy, Clone, PartialEq, Debug)]
struct TxSealDef(WTxoSeal);

#[derive(Copy, Clone)]
struct WitnessId(Txid);

struct NotClosed(SealError<TxoSeal>);

struct NoError;

impl Described for WitnessId {
    fn to_text(&self) -> String { self.0.to_string() }
}

impl Described for NotClosed {
    fn to_text(&self) -> String { self.0.to_string() }
}

impl Described for NoError {
    fn to_text(&self) -> String { String::new() }
}

fn auth_token(seal: &WTxoSeal) -> AuthToken {
    let commitment = seal.commit_id().to_byte_array();
    AuthToken::from_byte_array(commitment[..30].try_into().unwrap())
}

impl RgbSealDef for TxSealDef {
    type Src = TxSeal;
    type PubId = WitnessId;

    fn auth_token(&self) -> ids::AuthToken { token_in(auth_token(&self.0)) }

    fn to_src(&self) -> Option<TxSeal> {
        match self.0.primary {
            WOutpoint::Wout(_) => None,
            WOutpoint::Extern(primary) => {
                Some(TxSeal(TxoSeal { primary, secondary: self.0.secondary }))
            }
        }
    }

    fn resolve(&self, pub_id: WitnessId) -> TxSeal {
        let primary = match self.0.primary {
            WOutpoint::Wout(vout) => Outpoint::new(pub_id.0, vout),
            WOutpoint::Extern(outpoint) => outpoint,
        };
        TxSeal(TxoSeal { primary, secondary: self.0.secondary })
    }

    fn to_text(&self) -> String { self.0.to_string() }
}

impl RgbSeal for TxSeal {
    type Definition = TxSealDef;
    type PubWitness = Tx;
    type CliWitness = Anchor;
    type PubId = WitnessId;
    type ClosingError = NotClosed;

    fn pub_id(published: &Tx) -> WitnessId { WitnessId(PublishedWitness::<TxoSeal>::pub_id(published)) }

    fn verify_seals_closing(
        published: &Tx,
        client: &Anchor,
        seals: &Vec<TxSeal>,
        message: ids::Opid,
    ) -> Result<(), NotClosed> {
        single_use_seals::SealWitness::<TxoSeal>::new(published.clone(), client.clone())
            .verify_seals_closing(
                seals.iter().map(|seal| seal.0),
                opid_out(message).to_byte_array().into(),
            )
            .map_err(NotClosed)
    }
}

type Block = OperationSeals<TxSeal>;

type Witness = single_use_seals::SealWitness<TxoSeal>;

fn witness_in(witness: Witness) -> SealWitness<TxSeal> {
    SealWitness { published: witness.published, client: witness.client }
}

fn block(operation: Operation, seals: &[(u16, WTxoSeal)], witness: Option<Witness>) -> Block {
    let defined = seals.iter().map(|(pos, seal)| (*pos, TxSealDef(*seal))).collect();
    OperationSeals {
        operation: operation_in(operation),
        defined_seals: DefinedSeals::from_map(defined).unwrap(),
        witness: witness.map(witness_in),
    }
}

#[derive(Clone)]
struct TestReader(IntoIter<Block>);

impl ReadOperation for TestReader {
    type Seal = TxSeal;
    type Error = NoError;

    fn read_operation(&mut self) -> Result<Option<Block>, NoError> { Ok(self.0.next()) }
}

impl TestReader {
    fn new(vec: Vec<Block>) -> Self { Self(vec.into_iter()) }
}

struct Libs(HashMap<ids::LibraryId, Lib>);

#[derive(Default)]
struct State {
    global: HashMap<CellAddr, StateValue>,
    owned: HashMap<CellAddr, StateCell>,
}

struct TestContract {
    codex: Codex,
    contract_id: ContractId,
    libs: Libs,
    state: State,
    known_ops: BTreeMap<Opid, Operation>,
    seal_definitions: BTreeMap<Opid, HashMap<u16, WTxoSeal>>,
    witnesses: BTreeMap<Opid, Vec<Witness>>,
}

impl Memory for State {
    fn destructible(&self, addr: ids::CellAddress) -> Option<DestructibleCell> {
        self.owned.get(&addr_out(addr)).copied().map(cell_in)
    }
    fn immutable(&self, addr: ids::CellAddress) -> Option<StateValue> {
        self.global.get(&addr_out(addr)).copied()
    }
}

impl LibRepo for Libs {
    fn get_lib(&self, lib_id: ids::LibraryId) -> Option<&Lib> { self.0.get(&lib_id) }
}

impl State {
    fn add_outputs(&mut self, opid: Opid, operation: &Operation) {
        for (no, data) in operation.immutable_out.iter().enumerate() {
            self.global.insert(CellAddr::new(opid, no as u16), data.value);
        }
        for (no, cell) in operation.destructible_out.iter().enumerate() {
            self.owned.insert(CellAddr::new(opid, no as u16), *cell);
        }
    }
}

impl ContractApi<TxSeal> for TestContract {
    type Memory = State;
    type Repo = Libs;

    fn contract_id(&self) -> ids::ContractId { contract_id_in(self.contract_id) }
    fn codex(&self) -> &Codex { &self.codex }
    fn repo(&self) -> &Libs { &self.libs }
    fn memory(&self) -> &State { &self.state }
    fn is_known(&self, opid: ids::Opid) -> bool { self.known_ops.contains_key(&opid_out(opid)) }
    fn is_witness_known(&mut self, opid: ids::Opid, witness: &SealWitness<TxSeal>) -> bool {
        let witness = Witness::new(witness.published.clone(), witness.client.clone());
        self.witnesses
            .get(&opid_out(opid))
            .is_some_and(|witnesses| witnesses.contains(&witness))
    }
    fn known_seal(&mut self, addr: ids::CellAddress) -> Option<TxSeal> {
        let seal = self.seal_definitions.get(&opid_out(addr.opid))?.get(&addr.pos)?;
        TxSealDef(*seal).to_src()
    }
    fn are_seals_known(&mut self, opid: ids::Opid, seals: &DefinedSeals<TxSealDef>) -> bool {
        let Some(stored) = self.seal_definitions.get(&opid_out(opid)) else {
            return false;
        };
        seals
            .as_map()
            .iter()
            .all(|(no, seal)| stored.get(no).is_some_and(|stored| *stored == seal.0))
    }
    fn apply_operation(&mut self, op: VerifiedOperation) {
        let opid = opid_out(op.opid());
        let op = operation_out(&op.into_operation());
        self.state.add_outputs(opid, &op);
        self.known_ops.insert(opid, op);
    }
    fn stage_known_operation(&mut self, opid: ids::Opid, operation: &ContractOperation) {
        self.state.add_outputs(opid_out(opid), &operation_out(operation));
    }
    fn apply_seals(&mut self, opid: ids::Opid, seals: DefinedSeals<TxSealDef>) {
        let seals = seals.as_map().iter().map(|(no, seal)| (*no, seal.0));
        self.seal_definitions.entry(opid_out(opid)).or_default().extend(seals);
    }
    fn apply_witness(&mut self, opid: ids::Opid, witness: SealWitness<TxSeal>) {
        self.witnesses
            .entry(opid_out(opid))
            .or_default()
            .push(Witness::new(witness.published, witness.client));
    }
}

fn lib() -> Lib {
    let code: Vec<Instr<LibId>> = vec![CtrlInstr::Stop.into()];
    Lib::assemble(&code).unwrap()
}

fn codex() -> Codex {
    let lib_id = lib().lib_id();
    Codex {
        name: TinyString::try_from("TestCodex".to_string()).unwrap(),
        developer: Identity::default(),
        version: Default::default(),
        features: Default::default(),
        timestamp: 1732529307,
        field_order: FIELD_ORDER_SECP,
        input_config: CoreConfig::default(),
        verification_config: CoreConfig::default(),
        verifiers: TinyOrdMap::from_iter_checked([(0, LibSite::new(lib_id, 0))]),
    }
}

const SEAL_WOUT: WTxoSeal = WTxoSeal {
    primary: WOutpoint::Wout(Vout::from_u32(0)),
    secondary: TxoSealExt::Fallback(Outpoint::coinbase()),
};

const SEAL_1: WTxoSeal = WTxoSeal {
    primary: WOutpoint::Extern(Outpoint::coinbase()),
    secondary: TxoSealExt::Fallback(Outpoint::coinbase()),
};

fn sealed_cell(seal: &WTxoSeal) -> StateCell {
    StateCell { data: StateValue::None, auth: auth_token(seal), lock: None }
}

fn genesis() -> Genesis {
    let mut genesis = Genesis::strict_dumb();
    genesis.codex_id = codex().codex_id();
    genesis.immutable_out = SmallVec::from_iter_checked([StateData::new(0u64, 1000u64)]);
    genesis.destructible_out = SmallVec::from_iter_checked([sealed_cell(&SEAL_1)]);
    genesis
}

fn genesis_operation(genesis: &Genesis) -> Operation {
    genesis.to_operation(genesis.codex_id.to_byte_array().into())
}

fn contract() -> TestContract {
    let lib = lib();
    let lib_id = lib.lib_id();
    let genesis = genesis();
    let genesis_op = genesis.to_operation(ContractId::strict_dumb());
    let genesis_opid = genesis_op.opid();
    let (hi, lo) = halves(lib_id.to_byte_array());
    TestContract {
        codex: codex(),
        contract_id: ContractId::strict_dumb(),
        libs: Libs(HashMap::from([(ids::LibraryId { hi, lo }, lib)])),
        state: State {
            global: HashMap::new(),
            owned: HashMap::from([(CellAddr::new(genesis_opid, 0), genesis_op.destructible_out[0])]),
        },
        known_ops: BTreeMap::from([(genesis_opid, genesis_op)]),
        seal_definitions: BTreeMap::from([(genesis_opid, HashMap::new())]),
        witnesses: BTreeMap::from([(genesis_opid, vec![])]),
    }
}

fn operation() -> Operation {
    let genesis = genesis();
    let contract = contract();
    let genesis_op = genesis.to_operation(contract.contract_id);
    let genesis_opid = genesis_op.opid();
    Operation {
        version: Default::default(),
        contract_id: contract.contract_id,
        call_id: 0,
        nonce: fe256::ZERO,
        witness: StateValue::None,
        destructible_in: SmallVec::from_iter_checked([Input {
            addr: CellAddr::new(genesis_opid, 0),
            witness: StateValue::None,
        }]),
        immutable_in: Default::default(),
        destructible_out: Default::default(),
        immutable_out: Default::default(),
    }
}

fn seal_source_op(tag: u64, contract_id: ContractId) -> Operation {
    Operation {
        version: Default::default(),
        contract_id,
        call_id: 0,
        nonce: fe256::ZERO,
        witness: StateValue::None,
        destructible_in: Default::default(),
        immutable_in: Default::default(),
        destructible_out: SmallVec::from_iter_checked([sealed_cell(&SEAL_1)]),
        immutable_out: SmallVec::from_iter_checked([StateData::new(0u64, tag)]),
    }
}

fn seal_consumer_op(source: Opid, contract_id: ContractId) -> Operation {
    Operation {
        version: Default::default(),
        contract_id,
        call_id: 0,
        nonce: fe256::ZERO,
        witness: StateValue::None,
        destructible_in: SmallVec::from_iter_checked([Input {
            addr: CellAddr::new(source, 0),
            witness: StateValue::None,
        }]),
        immutable_in: Default::default(),
        destructible_out: Default::default(),
        immutable_out: SmallVec::from_iter_checked([StateData::new(0u64, 99u64)]),
    }
}

#[test]
fn known_skip_stages_outputs_for_later_new_operation() {
    let genesis = genesis();
    let genesis_op = genesis_operation(&genesis);
    let contract_id = contract().contract_id;
    let producer = seal_source_op(21, contract_id);
    let producer_opid = producer.opid();
    let consumer = seal_consumer_op(producer_opid, contract_id);
    let known_witness = Witness::new(Tx::strict_dumb(), Anchor::strict_dumb());

    let mut contract = contract();
    contract.known_ops.insert(producer_opid, producer.clone());
    contract.seal_definitions.insert(producer_opid, HashMap::from([(0, SEAL_1)]));
    contract.witnesses.insert(producer_opid, vec![known_witness.clone()]);

    let err = contract
        .evaluate(
            TestReader::new(vec![
                block(genesis_op, &[], None),
                block(producer, &[(0, SEAL_1)], Some(known_witness)),
                block(consumer, &[], None),
            ]),
            false,
            &mut Journal::new(),
        )
        .unwrap_err()
        .to_text();

    assert!(
        err.contains("no witness known for the operation"),
        "expected verification to pass the staged known output and fail later on missing witness, \
         got: {err}"
    );
}

fn run(reader: TestReader) -> Result<(), VerificationError<TxSeal, NoError>> {
    let mut contract = contract();
    contract.evaluate(reader.clone(), false, &mut Journal::new())?;

    // Check contract values
    let mut ops = BTreeMap::new();
    let mut seals = BTreeMap::new();
    let mut witnesses = BTreeMap::new();
    for entry in reader.0 {
        let operation = operation_out(&entry.operation);
        let opid = operation.opid();
        ops.insert(opid, operation);
        let definitions: HashMap<u16, WTxoSeal> =
            entry.defined_seals.as_map().iter().map(|(no, seal)| (*no, seal.0)).collect();
        seals.insert(opid, definitions);
        let witness: Vec<Witness> =
            entry.witness.into_iter().map(|w| Witness::new(w.published, w.client)).collect();
        witnesses.insert(opid, witness);
    }

    ops.pop_first();
    let (genesis_opid, genesis_op) = contract.known_ops.first_key_value().unwrap();
    ops.insert(*genesis_opid, genesis_op.clone());
    seals.pop_first();
    let (genesis_opid, definitions) = contract.seal_definitions.first_key_value().unwrap();
    seals.insert(*genesis_opid, definitions.clone());
    witnesses.pop_first();
    let (genesis_opid, definitions) = contract.witnesses.first_key_value().unwrap();
    witnesses.insert(*genesis_opid, definitions.clone());

    assert_eq!(ops, contract.known_ops);
    assert_eq!(seals, contract.seal_definitions);
    assert_eq!(witnesses, contract.witnesses);
    Ok(())
}

fn run_or_panic(reader: TestReader) {
    if let Err(error) = run(reader) {
        panic!("{}", error.to_text());
    }
}

#[test]
fn empty() {
    let reader = TestReader::new(vec![]);
    run_or_panic(reader);
}

#[test]
fn genesis_only() {
    let genesis = genesis();
    let genesis_op = genesis_operation(&genesis);

    let reader = TestReader::new(vec![block(genesis_op, &[], None)]);
    run_or_panic(reader);
}

#[test]
#[should_panic(expected = "genesis does not commit to the codex id; a wrong contract genesis is used.")]
fn invalid_genesis() {
    let mut genesis = genesis();
    genesis.codex_id = CodexId::from_byte_array([0xAD; 32]);
    let genesis_op = genesis_operation(&genesis);

    let reader = TestReader::new(vec![block(genesis_op, &[], None)]);
    run_or_panic(reader);
}

#[test]
#[should_panic(expected = "seals, reported to be defined by the operation \
                           k7fHvPyBlnM8m1n0QUaqNhB0I8kTwWXmi7nB_ZjTGVc, do match the assignments in the \
                           operation.
Actual operation seals from the assignments: {
    AuthToken(
        fe256(
            0x0000141b74832b85ca7bc7e2899cc3e5617a29ac4340f09b105524a6f62bd597,
        ),
    ),
}
Reported seals: {
    AuthToken(
        fe256(
            0x000046c31ad97975e90e4ab2ee247f0e2f39ec8461823023e977cc14bcda14f5,
        ),
    ),
}
Sources for the reported seals: {
    0: \"~:0/00000000000000000000000000000000000000000000000000000000000000000000000000000000\",
}")]
fn invalid_seals() {
    let genesis = genesis();
    let genesis_op = genesis_operation(&genesis);

    let reader = TestReader::new(vec![block(genesis_op, &[(0, WTxoSeal::strict_dumb())], None)]);
    run_or_panic(reader);
}

#[test]
fn seal_definitions_must_match_the_reported_output_positions() {
    let mut genesis = genesis();
    let other_seal = WTxoSeal::strict_dumb();
    assert_ne!(auth_token(&SEAL_1), auth_token(&other_seal));
    genesis.destructible_out =
        SmallVec::from_iter_checked([sealed_cell(&SEAL_1), sealed_cell(&other_seal)]);
    let genesis_op = genesis_operation(&genesis);

    let mut contract = contract();
    let err = contract
        .evaluate(
            TestReader::new(vec![block(genesis_op, &[(0, other_seal), (1, SEAL_1)], None)]),
            false,
            &mut Journal::new(),
        )
        .unwrap_err();

    assert!(matches!(err, VerificationError::SealsDefinitionMismatch { .. }));
}

#[test]
#[should_panic(expected = "unknown seal definition for cell address k7fHvPyBlnM8m1n0QUaqNhB0I8kTwWXmi7nB_ZjTGVc:0.")]
fn seal_unknown() {
    let genesis = genesis();
    let genesis_op = genesis_operation(&genesis);
    let operation = operation();

    let reader =
        TestReader::new(vec![block(genesis_op, &[], None), block(operation, &[], None)]);
    run_or_panic(reader);
}

#[test]
#[should_panic(expected = "unknown seal definition for cell address k7fHvPyBlnM8m1n0QUaqNhB0I8kTwWXmi7nB_ZjTGVc:0.")]
fn genesis_with_wout() {
    let mut genesis = genesis();
    genesis.destructible_out[0].auth = auth_token(&SEAL_WOUT);
    let genesis_op = genesis_operation(&genesis);
    let operation = operation();

    let reader = TestReader::new(vec![
        block(genesis_op, &[(0, SEAL_WOUT)], None),
        block(operation, &[], None),
    ]);
    run_or_panic(reader);
}

#[test]
#[should_panic(expected = "no witness known for the operation KAPb7ikgqk_ofCp1fZWm_T6XfKjuCwNf9BlZfPpoR0E.")]
fn no_witness() {
    let genesis = genesis();
    let genesis_op = genesis_operation(&genesis);
    let operation = operation();

    let reader = TestReader::new(vec![
        block(genesis_op, &[(0, SEAL_1)], None),
        block(operation, &[], None),
    ]);
    run_or_panic(reader);
}

#[test]
#[should_panic(expected = "single-use seals are not closed properly with witness \
                           4ebd325a4b394cff8c57e8317ccf5a8d0e2bdf1b8526f8aad6c8e43d8240621a for operation \
                           KAPb7ikgqk_ofCp1fZWm_T6XfKjuCwNf9BlZfPpoR0E.
Details: seal \
                           0000000000000000000000000000000000000000000000000000000000000000:0/\
                           0000000000000000000000000000000000000000000000000000000000000000:0 is not included in \
                           the public witness 4ebd325a4b394cff8c57e8317ccf5a8d0e2bdf1b8526f8aad6c8e43d8240621a")]
fn seals_unclosed() {
    let genesis = genesis();
    let genesis_op = genesis_operation(&genesis);
    let operation = operation();

    let reader = TestReader::new(vec![
        block(genesis_op, &[(0, SEAL_1)], None),
        block(operation, &[], Some(Witness::new(Tx::strict_dumb(), Anchor::strict_dumb()))),
    ]);
    run_or_panic(reader);
}

#[test]
#[should_panic(expected = "ingle-use seals are not closed properly with witness \
                           1692606e775129a6733b6dc48ec7f5771f8e30d8c5304c0949d36efad2411812 for operation \
                           KAPb7ikgqk_ofCp1fZWm_T6XfKjuCwNf9BlZfPpoR0E.
Details: seal \
                           0000000000000000000000000000000000000000000000000000000000000000:0/\
                           0000000000000000000000000000000000000000000000000000000000000000:0 is not included in \
                           the public witness 1692606e775129a6733b6dc48ec7f5771f8e30d8c5304c0949d36efad2411812")]
fn not_spending_utxo() {
    let genesis = genesis();
    let genesis_op = genesis_operation(&genesis);
    let operation = operation();

    let mut witness = Tx::strict_dumb();
    witness
        .outputs
        .push(TxOut { value: Sats::ZERO, script_pubkey: ScriptPubkey::op_return(&[]) })
        .unwrap();

    let reader = TestReader::new(vec![
        block(genesis_op, &[(0, SEAL_1)], None),
        block(operation, &[], Some(Witness::new(witness, Anchor::strict_dumb()))),
    ]);
    run_or_panic(reader);
}

#[test]
#[should_panic(expected = "single-use seals are not closed properly with witness \
                           0520b790b442e9c023e2ea0e0e284fbe60086d64f01037082f19464b44f9642e for operation \
                           KAPb7ikgqk_ofCp1fZWm_T6XfKjuCwNf9BlZfPpoR0E.
Details: seal \
                           0000000000000000000000000000000000000000000000000000000000000000:0/\
                           0000000000000000000000000000000000000000000000000000000000000000:0 is not included in \
                           the public witness 0520b790b442e9c023e2ea0e0e284fbe60086d64f01037082f19464b44f9642e")]
fn missing_commitment() {
    let genesis = genesis();
    let genesis_op = genesis_operation(&genesis);
    let operation = operation();

    let mut witness = Tx::strict_dumb();
    witness
        .inputs
        .push(TxIn {
            prev_output: Outpoint::coinbase(),
            sig_script: Default::default(),
            sequence: SeqNo::from_consensus_u32(0),
            witness: Default::default(),
        })
        .unwrap();
    witness
        .outputs
        .push(TxOut { value: Sats::ZERO, script_pubkey: ScriptPubkey::op_return(&[]) })
        .unwrap();

    let reader = TestReader::new(vec![
        block(genesis_op, &[(0, SEAL_1)], None),
        block(operation, &[], Some(Witness::new(witness, Anchor::strict_dumb()))),
    ]);
    run_or_panic(reader);
}
