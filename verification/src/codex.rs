//! Verification of operations against a codex.
use vstd::prelude::*;

use amplify::ByteArray;

use crate::ids::{CellAddress, CodexId, ContractId, LibraryId, Opid};
use crate::operation::{
    addr_from_outer, outer_addr, outer_cell, outer_operation, ContractOperation, DestructibleCell,
    OperationView,
};

verus! {

/// The codex of a contract; carried through.
#[verifier::external_type_specification]
#[verifier::external_body]
pub struct ExCodex(ultrasonic::Codex);

/// A script library; carried through.
#[verifier::external_type_specification]
#[verifier::external_body]
pub struct ExLib(ultrasonic::aluvm::alu::Lib);

/// The id of a script library in the form which `ultrasonic` takes; read only by the conversion
/// here.
#[verifier::external_type_specification]
#[verifier::external_body]
pub struct ExLibId(ultrasonic::aluvm::alu::LibId);

/// The reason for which `ultrasonic` refuses an operation; read only by the conversion here.
#[verifier::external_type_specification]
#[verifier::external_body]
pub struct ExCallError(ultrasonic::CallError);

/// The reason for which a codex refuses an operation.
pub enum CallFailure {
    /// The operation doesn't belong to the contract.
    WrongContract {
        /// The contract which is verified.
        expected: ContractId,
        /// The contract of the operation.
        found: ContractId,
    },
    /// The codex has no verifier for the method which the operation calls.
    NotFound(u16),
    /// The operation references a destructible memory cell which was not defined.
    NoReadOnceInput(CellAddress),
    /// The operation references an immutable memory cell which was not defined.
    NoImmutableInput(CellAddress),
    /// The access conditions of an input are unsatisfied.
    Lock(Option<ultrasonic::fe256>),
    /// The verification script failed with a status code.
    Script(ultrasonic::fe256),
    /// The verification script failed without a status code.
    ScriptUnspecified,
}

/// Read access to the contract state.
///
/// What a method returns is a function of the state and of the address; the specification
/// function next to it names it.
pub trait Memory {
    /// What [`Self::destructible`] returns.
    open spec fn owned(&self, addr: CellAddress) -> Option<DestructibleCell> {
        arbitrary()
    }

    /// What [`Self::immutable`] returns.
    open spec fn global(&self, addr: CellAddress) -> Option<ultrasonic::StateValue> {
        arbitrary()
    }

    /// Reads a destructible memory cell.
    fn destructible(&self, addr: CellAddress) -> (cell: Option<DestructibleCell>)
        ensures
            cell == self.owned(addr),
    ;

    /// Reads an immutable memory cell.
    fn immutable(&self, addr: CellAddress) -> (value: Option<ultrasonic::StateValue>)
        ensures
            value == self.global(addr),
    ;
}

/// Access to the script libraries used by a contract.
///
/// What [`Self::get_lib`] returns is a function of the repository and of the id.
pub trait LibRepo {
    /// What [`Self::get_lib`] returns.
    open spec fn library(&self, lib_id: LibraryId) -> Option<ultrasonic::aluvm::alu::Lib> {
        arbitrary()
    }

    /// Returns the library with the given id, if it is known.
    fn get_lib(&self, lib_id: LibraryId) -> (lib: Option<&ultrasonic::aluvm::alu::Lib>)
        ensures
            lib is Some <==> self.library(lib_id) is Some,
            lib matches Some(found) ==> self.library(lib_id) == Some(*found),
    ;
}

/// The destructible cells of a contract state.
pub open spec fn owned_cells<M: Memory>(memory: M) -> Map<CellAddress, DestructibleCell> {
    Map::new(
        |addr: CellAddress| memory.owned(addr) is Some,
        |addr: CellAddress| memory.owned(addr)->0,
    )
}

/// The immutable cells of a contract state.
pub open spec fn global_cells<M: Memory>(memory: M) -> Map<CellAddress, ultrasonic::StateValue> {
    Map::new(
        |addr: CellAddress| memory.global(addr) is Some,
        |addr: CellAddress| memory.global(addr)->0,
    )
}

/// The libraries of a repository which have the id under which they are found.
pub open spec fn libraries<L: LibRepo>(repo: L) -> Map<LibraryId, ultrasonic::aluvm::alu::Lib> {
    Map::new(
        |id: LibraryId| repo.library(id) matches Some(lib) && library_commitment(lib) == id,
        |id: LibraryId| repo.library(id)->0,
    )
}

/// An operation which a codex has verified; made only by [`verify_operation`].
pub struct VerifiedOperation {
    opid: Opid,
    operation: ContractOperation,
}

impl VerifiedOperation {
    /// The operation id.
    pub closed spec fn id(&self) -> Opid {
        self.opid
    }

    #[verifier::type_invariant]
    spec fn well_formed(self) -> bool {
        self.opid == crate::operation::operation_commitment(self.operation@)
    }

    /// Returns the operation id, without computing it again.
    pub fn opid(&self) -> (id: Opid)
        ensures
            id == self.id(),
            id == crate::operation::operation_commitment(self@),
    {
        proof {
            use_type_invariant(self);
        }
        self.opid
    }

    /// Returns the verified operation.
    pub fn as_operation(&self) -> (operation: &ContractOperation)
        ensures
            operation@ == self@,
    {
        &self.operation
    }

    /// Releases the operation, discarding the verification status.
    pub fn into_operation(self) -> (operation: ContractOperation)
        ensures
            operation@ == self@,
    {
        self.operation
    }
}

impl View for VerifiedOperation {
    type V = OperationView;

    closed spec fn view(&self) -> OperationView {
        self.operation@
    }
}

/// What `ultrasonic::Codex::codex_id` returns for a codex.
pub uninterp spec fn codex_commitment(codex: ultrasonic::Codex) -> CodexId;

/// `ultrasonic::Codex::codex_id`: the hash committing to all the data of the codex, which is a
/// function of the codex alone.
#[verifier::external_body]
pub(crate) fn codex_id(codex: &ultrasonic::Codex) -> (id: CodexId)
    ensures
        id == codex_commitment(*codex),
{
    CodexId::from_byte_array(codex.codex_id().to_byte_array())
}

/// What `Lib::lib_id` of `aluvm` returns for a library.
pub uninterp spec fn library_commitment(lib: ultrasonic::aluvm::alu::Lib) -> LibraryId;

/// `Lib::lib_id` of `aluvm`: the hash committing to all the data of the library, which is a
/// function of the library alone.
#[verifier::external_body]
fn library_id(lib: &ultrasonic::aluvm::alu::Lib) -> (id: LibraryId)
    ensures
        id == library_commitment(*lib),
{
    LibraryId::from_byte_array(lib.lib_id().to_byte_array())
}

/// The library id of the bytes of a `LibId` of `aluvm`.
pub uninterp spec fn library_id_of_outer(id: ultrasonic::aluvm::alu::LibId) -> LibraryId;

/// Converts a `LibId` of `aluvm`: the id of the same bytes, by `LibId::to_byte_array`. What it
/// makes is a function of the id alone.
#[verifier::external_body]
fn library_id_from_outer(id: ultrasonic::aluvm::alu::LibId) -> (inner: LibraryId)
    ensures
        inner == library_id_of_outer(id),
{
    LibraryId::from_byte_array(id.to_byte_array())
}

/// Finds a library whose data have the given id. A library which a repository returns under an
/// id that is not its own counts as unknown.
fn find_library<L: LibRepo>(repo: &L, lib_id: LibraryId) -> (found: Option<
    &ultrasonic::aluvm::alu::Lib,
>)
    ensures
        found is Some <==> (repo.library(lib_id) matches Some(lib) && library_commitment(lib)
            == lib_id),
        found matches Some(lib) ==> repo.library(lib_id) == Some(*lib),
{
    match repo.get_lib(lib_id) {
        Some(lib) => if library_id(lib) == lib_id {
            Some(lib)
        } else {
            None
        },
        None => None,
    }
}

/// A contract memory in the form which `ultrasonic` reads.
pub struct MemoryReader<'a, M: Memory> {
    /// The memory which is read.
    pub memory: &'a M,
}

impl<'a, M: Memory> ultrasonic::Memory for MemoryReader<'a, M> {
    fn destructible(&self, addr: ultrasonic::CellAddr) -> (cell: Option<ultrasonic::StateCell>)
        ensures
            cell == (match self.memory.owned(crate::operation::address_of_outer(addr)) {
                Some(owned) => Some(crate::operation::cell_to_outer(owned)),
                None => None,
            }),
    {
        match self.memory.destructible(addr_from_outer(addr)) {
            Some(cell) => Some(outer_cell(&cell)),
            None => None,
        }
    }

    fn immutable(&self, addr: ultrasonic::CellAddr) -> (value: Option<ultrasonic::StateValue>)
        ensures
            value == self.memory.global(crate::operation::address_of_outer(addr)),
    {
        self.memory.immutable(addr_from_outer(addr))
    }
}

/// A library repository in the form which `ultrasonic` reads.
pub struct RepoReader<'a, L: LibRepo> {
    /// The repository which is read.
    pub repo: &'a L,
}

impl<'a, L: LibRepo> ultrasonic::LibRepo for RepoReader<'a, L> {
    fn get_lib(&self, lib_id: ultrasonic::aluvm::alu::LibId) -> (found: Option<
        &ultrasonic::aluvm::alu::Lib,
    >)
        ensures
            found is Some <==> libraries(*self.repo).contains_key(library_id_of_outer(lib_id)),
            found matches Some(lib) ==> *lib == libraries(*self.repo)[library_id_of_outer(lib_id)],
    {
        find_library(self.repo, library_id_from_outer(lib_id))
    }
}

/// Whether an address is the first of a list at which there is no cell.
pub open spec fn first_absent(
    addrs: Seq<CellAddress>,
    present: spec_fn(CellAddress) -> bool,
    i: int,
) -> bool {
    &&& 0 <= i < addrs.len()
    &&& !present(addrs[i])
    &&& forall|j: int| 0 <= j < i ==> present(#[trigger] addrs[j])
}

/// The failure which a codex reports before it runs any script: of the contract id, then of the
/// first destructible cell which is absent, then of the first immutable cell which is absent.
pub open spec fn access_failure<M: Memory>(
    contract_id: ContractId,
    operation: OperationView,
    memory: M,
) -> Option<CallFailure> {
    let owned = |addr: CellAddress| memory.owned(addr) is Some;
    let global = |addr: CellAddress| memory.global(addr) is Some;
    if operation.contract_id != contract_id {
        Some(CallFailure::WrongContract { expected: contract_id, found: operation.contract_id })
    } else if exists|i: int| first_absent(operation.inputs(), owned, i) {
        let i = choose|i: int| first_absent(operation.inputs(), owned, i);
        Some(CallFailure::NoReadOnceInput(operation.inputs()[i]))
    } else if exists|i: int| first_absent(operation.immutable_in, global, i) {
        let i = choose|i: int| first_absent(operation.immutable_in, global, i);
        Some(CallFailure::NoImmutableInput(operation.immutable_in[i]))
    } else {
        None
    }
}

/// Whether a codex may answer so to an operation: with the failure to access the contract or its
/// cells, if there is one; else with a failure of the call and its scripts, or with the id of the
/// operation.
pub open spec fn possible_verdict<M: Memory>(
    contract_id: ContractId,
    operation: OperationView,
    memory: M,
    verdict: Result<Opid, CallFailure>,
) -> bool {
    match access_failure(contract_id, operation, memory) {
        Some(failure) => verdict == Err::<Opid, CallFailure>(failure),
        None => match verdict {
            Ok(opid) => opid == crate::operation::operation_commitment(operation),
            Err(CallFailure::NotFound(call_id)) => call_id == operation.call_id,
            Err(CallFailure::Lock(_)) => true,
            Err(CallFailure::Script(_)) => true,
            Err(CallFailure::ScriptUnspecified) => true,
            Err(_) => false,
        },
    }
}

/// The answer which a verified operation or a failure stands for.
pub open spec fn verdict_of(verified: Result<VerifiedOperation, CallFailure>) -> Result<
    Opid,
    CallFailure,
> {
    match verified {
        Ok(verified) => Ok(verified.id()),
        Err(failure) => Err(failure),
    }
}

/// Converts an `ultrasonic::CallError`, variant by variant.
#[verifier::external_body]
fn call_failure_from_outer(error: ultrasonic::CallError) -> CallFailure {
    match error {
        ultrasonic::CallError::WrongContract { expected, found } => CallFailure::WrongContract {
            expected: ContractId::from_byte_array(expected.to_byte_array()),
            found: ContractId::from_byte_array(found.to_byte_array()),
        },
        ultrasonic::CallError::NotFound(call_id) => CallFailure::NotFound(call_id),
        ultrasonic::CallError::NoReadOnceInput(addr) => CallFailure::NoReadOnceInput(addr_from_outer(addr)),
        ultrasonic::CallError::NoImmutableInput(addr) => CallFailure::NoImmutableInput(addr_from_outer(addr)),
        ultrasonic::CallError::Lock(code) => CallFailure::Lock(code),
        ultrasonic::CallError::Script(code) => CallFailure::Script(code),
        ultrasonic::CallError::ScriptUnspecified => CallFailure::ScriptUnspecified,
    }
}

/// Converts the reason for which a codex refuses an operation to `ultrasonic::CallError`, variant
/// by variant.
#[verifier::external_body]
pub(crate) fn outer_call_error(failure: &CallFailure) -> ultrasonic::CallError {
    match *failure {
        CallFailure::WrongContract { expected: e, found: f } => ultrasonic::CallError::WrongContract {
            expected: ByteArray::from_slice_checked([e.hi.to_be_bytes(), e.lo.to_be_bytes()].concat()),
            found: ByteArray::from_slice_checked([f.hi.to_be_bytes(), f.lo.to_be_bytes()].concat()),
        },
        CallFailure::NotFound(call_id) => ultrasonic::CallError::NotFound(call_id),
        CallFailure::NoReadOnceInput(addr) => ultrasonic::CallError::NoReadOnceInput(outer_addr(&addr)),
        CallFailure::NoImmutableInput(addr) => ultrasonic::CallError::NoImmutableInput(outer_addr(&addr)),
        CallFailure::Lock(code) => ultrasonic::CallError::Lock(code),
        CallFailure::Script(code) => ultrasonic::CallError::Script(code),
        CallFailure::ScriptUnspecified => ultrasonic::CallError::ScriptUnspecified,
    }
}

/// What `ultrasonic::Codex::verify` returns, with the operation id in the place of the operation,
/// for a codex, a contract id, an operation, the destructible and the immutable cells of the
/// contract, and the script libraries; nothing where it does not return, since a script panics or
/// never ends.
pub uninterp spec fn codex_verdict(
    codex: ultrasonic::Codex,
    contract_id: ContractId,
    operation: OperationView,
    owned: Map<CellAddress, DestructibleCell>,
    global: Map<CellAddress, ultrasonic::StateValue>,
    libraries: Map<LibraryId, ultrasonic::aluvm::alu::Lib>,
) -> Option<Result<Opid, CallFailure>>;

/// Whether the scripts which a codex runs on an operation come to an end, if it gets so far as to
/// run any: none of them panics, and none runs forever.
pub open spec fn scripts_end<M: Memory, L: LibRepo>(
    codex: ultrasonic::Codex,
    contract_id: ContractId,
    operation: OperationView,
    memory: M,
    repo: L,
) -> bool {
    access_failure(contract_id, operation, memory) is None ==> codex_verdict(
        codex,
        contract_id,
        operation,
        owned_cells(memory),
        global_cells(memory),
        libraries(repo),
    ) is Some
}

/// `ultrasonic::Codex::verify`. What it returns is a function of the codex, the contract id, the
/// operation, the cells and the libraries. It compares the contract id, then reads all the cells
/// which the operation takes, then runs the scripts; on success it returns the operation with its
/// id. What the scripts decide is stated only by its name.
///
/// The function panics on a library whose id is not the one asked for; the reader of the
/// repository returns no such library. It also panics where a script puts a number that is not
/// below the field order of the codex into a register, and does not return where a script never
/// ends, which it may under a codex without a complexity limit: it is demanded that the scripts do
/// neither.
#[verifier::external_body]
fn codex_verify<M: Memory, L: LibRepo>(
    codex: &ultrasonic::Codex,
    contract_id: ContractId,
    operation: &ContractOperation,
    memory: &M,
    repo: &L,
) -> (verdict: Result<Opid, CallFailure>)
    requires
        scripts_end(*codex, contract_id, operation@, *memory, *repo),
    ensures
        Some(verdict) == codex_verdict(
            *codex,
            contract_id,
            operation@,
            owned_cells(*memory),
            global_cells(*memory),
            libraries(*repo),
        ),
        possible_verdict(contract_id, operation@, *memory, verdict),
{
    let id = [contract_id.hi.to_be_bytes(), contract_id.lo.to_be_bytes()].concat();
    match codex.verify(
        ByteArray::from_slice_checked(id),
        outer_operation(operation),
        &MemoryReader { memory },
        &RepoReader { repo },
    ) {
        Ok(verified) => Ok(Opid::from_byte_array(verified.opid().to_byte_array())),
        Err(error) => Err(call_failure_from_outer(error)),
    }
}

/// Verifies an operation of a contract against a codex.
///
/// The scripts of the codex run as they are written, so it is demanded that they come to an end:
/// one which panics or never ends would make this function do so.
pub fn verify_operation<M: Memory, L: LibRepo>(
    codex: &ultrasonic::Codex,
    contract_id: ContractId,
    operation: ContractOperation,
    memory: &M,
    repo: &L,
) -> (verified: Result<VerifiedOperation, CallFailure>)
    requires
        scripts_end(*codex, contract_id, operation@, *memory, *repo),
    ensures
        Some(verdict_of(verified)) == codex_verdict(
            *codex,
            contract_id,
            operation@,
            owned_cells(*memory),
            global_cells(*memory),
            libraries(*repo),
        ),
        possible_verdict(contract_id, operation@, *memory, verdict_of(verified)),
        verified matches Ok(verified) ==> verified@ == operation@,
{
    match codex_verify(codex, contract_id, &operation, memory, repo) {
        Ok(opid) => Ok(VerifiedOperation { opid, operation }),
        Err(failure) => Err(failure),
    }
}

} // verus!
