//! Contract operations and the cells which they read and define.
//!
//! What the verification reads of an operation is held as plain values; the data which only the
//! virtual machine reads are carried in the types of the `ultrasonic` crate.
use vstd::prelude::*;

use amplify::confinement::SmallVec;
use amplify::ByteArray;

use crate::ids::{AuthToken, CellAddress, ContractId, Opid};

verus! {

/// The element of a finite field which `ultrasonic` computes with; carried through.
#[verifier::external_type_specification]
#[verifier::external_body]
pub struct ExFe256(ultrasonic::fe256);

/// The value of a memory cell; carried through.
#[verifier::external_type_specification]
#[verifier::external_body]
pub struct ExStateValue(ultrasonic::StateValue);

/// The data of an immutable memory cell; carried through.
#[verifier::external_type_specification]
#[verifier::external_body]
pub struct ExStateData(ultrasonic::StateData);

/// The lock conditions of a destructible memory cell; carried through.
#[verifier::external_type_specification]
#[verifier::external_body]
pub struct ExCellLock(ultrasonic::CellLock);

/// An address of a memory cell in the form which `ultrasonic` takes; made and read only by the
/// conversions here.
#[verifier::external_type_specification]
#[verifier::external_body]
pub struct ExCellAddr(ultrasonic::CellAddr);

/// A destructible memory cell in the form which `ultrasonic` takes; made only by the conversion
/// here.
#[verifier::external_type_specification]
#[verifier::external_body]
pub struct ExStateCell(ultrasonic::StateCell);

/// An operation in the form which `ultrasonic` takes; made only by the conversion here.
#[verifier::external_type_specification]
#[verifier::external_body]
pub struct ExOperation(ultrasonic::Operation);

/// `StateData::clone`, which the crate derives: the copy holds the same value and the same raw
/// data.
pub assume_specification[ <ultrasonic::StateData as Clone>::clone ](
    data: &ultrasonic::StateData,
) -> (copy: ultrasonic::StateData)
    ensures
        copy == *data,
;

/// The greatest number of elements of each list of an operation.
pub const MAX_LIST_LEN: usize = 0xFFFF;

/// An input of an operation: the destructible cell which it reads and destroys.
#[derive(Clone, Copy)]
pub struct Input {
    /// Address of the memory cell.
    pub addr: CellAddress,
    /// Data for satisfying the lock conditions of the cell.
    pub witness: ultrasonic::StateValue,
}

/// A destructible memory cell.
#[derive(Clone, Copy)]
pub struct DestructibleCell {
    /// Value stored in the cell.
    pub data: ultrasonic::StateValue,
    /// Token of authority controlling the access to the cell.
    pub auth: AuthToken,
    /// Additional lock conditions.
    pub lock: Option<ultrasonic::CellLock>,
}

/// What an operation consists of.
#[verifier::ext_equal]
pub struct OperationView {
    /// Contract for which the operation is performed.
    pub contract_id: ContractId,
    /// Contract method which the operation calls.
    pub call_id: u16,
    /// Nonce, used to change the id of an operation with the same arguments.
    pub nonce: ultrasonic::fe256,
    /// Witness of the operation as a whole.
    pub witness: ultrasonic::StateValue,
    /// Destructible cells which the operation reads and destroys.
    pub destructible_in: Seq<Input>,
    /// Immutable cells which the operation reads.
    pub immutable_in: Seq<CellAddress>,
    /// Destructible cells which the operation defines.
    pub destructible_out: Seq<DestructibleCell>,
    /// Immutable cells which the operation defines.
    pub immutable_out: Seq<ultrasonic::StateData>,
}

impl OperationView {
    /// Whether each list of the operation is short enough for its encoding.
    pub open spec fn fits(self) -> bool {
        &&& self.destructible_in.len() <= MAX_LIST_LEN
        &&& self.immutable_in.len() <= MAX_LIST_LEN
        &&& self.destructible_out.len() <= MAX_LIST_LEN
        &&& self.immutable_out.len() <= MAX_LIST_LEN
    }

    /// The operation performed for another contract.
    pub open spec fn with_contract(self, contract_id: ContractId) -> OperationView {
        OperationView { contract_id, ..self }
    }

    /// The addresses of the destructible cells which the operation destroys, in order.
    pub open spec fn inputs(self) -> Seq<CellAddress> {
        self.destructible_in.map_values(|input: Input| input.addr)
    }

    /// The tokens of authority of the destructible cells which the operation defines.
    pub open spec fn tokens(self) -> Set<AuthToken> {
        Set::new(
            |token: AuthToken| exists|i: int|
                0 <= i < self.destructible_out.len() && (#[trigger] self.destructible_out[i]).auth
                    == token,
        )
    }
}

/// The parts of an operation, from which [`ContractOperation::new`] makes one.
pub struct OperationParts {
    /// Contract for which the operation is performed.
    pub contract_id: ContractId,
    /// Contract method which the operation calls.
    pub call_id: u16,
    /// Nonce, used to change the id of an operation with the same arguments.
    pub nonce: ultrasonic::fe256,
    /// Witness of the operation as a whole.
    pub witness: ultrasonic::StateValue,
    /// Destructible cells which the operation reads and destroys.
    pub destructible_in: Vec<Input>,
    /// Immutable cells which the operation reads.
    pub immutable_in: Vec<CellAddress>,
    /// Destructible cells which the operation defines.
    pub destructible_out: Vec<DestructibleCell>,
    /// Immutable cells which the operation defines.
    pub immutable_out: Vec<ultrasonic::StateData>,
}

impl View for OperationParts {
    type V = OperationView;

    open spec fn view(&self) -> OperationView {
        OperationView {
            contract_id: self.contract_id,
            call_id: self.call_id,
            nonce: self.nonce,
            witness: self.witness,
            destructible_in: self.destructible_in@,
            immutable_in: self.immutable_in@,
            destructible_out: self.destructible_out@,
            immutable_out: self.immutable_out@,
        }
    }
}

/// Operation under a contract which may update the contract state. None of its lists is longer
/// than [`MAX_LIST_LEN`]. Its version is the only one there is.
pub struct ContractOperation {
    parts: OperationParts,
}

impl View for ContractOperation {
    type V = OperationView;

    closed spec fn view(&self) -> OperationView {
        self.parts@
    }
}

impl ContractOperation {
    #[verifier::type_invariant]
    spec fn well_formed(self) -> bool {
        self.parts@.fits()
    }

    /// Makes an operation of its parts, or hands them back where a list is too long.
    pub fn new(parts: OperationParts) -> (made: Result<ContractOperation, OperationParts>)
        ensures
            made is Ok <==> parts@.fits(),
            made matches Ok(operation) ==> operation@ == parts@,
            made matches Err(back) ==> back == parts,
    {
        if parts.destructible_in.len() <= MAX_LIST_LEN && parts.immutable_in.len() <= MAX_LIST_LEN
            && parts.destructible_out.len() <= MAX_LIST_LEN && parts.immutable_out.len()
            <= MAX_LIST_LEN {
            Ok(ContractOperation { parts })
        } else {
            Err(parts)
        }
    }

    /// Returns the parts of the operation, whose lists fit its encoding.
    pub fn parts(&self) -> (parts: &OperationParts)
        ensures
            parts@ == self@,
            self@.fits(),
    {
        proof {
            use_type_invariant(self);
        }
        &self.parts
    }

    /// Releases the parts of the operation.
    pub fn into_parts(self) -> (parts: OperationParts)
        ensures
            parts@ == self@,
    {
        self.parts
    }

    /// Returns the contract for which the operation is performed.
    pub fn contract_id(&self) -> (id: ContractId)
        ensures
            id == self@.contract_id,
    {
        self.parts.contract_id
    }

    /// Replaces the contract for which the operation is performed.
    pub fn set_contract_id(&mut self, contract_id: ContractId)
        ensures
            final(self)@ == old(self)@.with_contract(contract_id),
    {
        proof {
            use_type_invariant(&*self);
        }
        self.parts.contract_id = contract_id;
    }

    /// Computes the operation id: the commitment to all the operation data.
    pub fn opid(&self) -> (id: Opid)
        ensures
            id == operation_commitment(self@),
    {
        operation_id(self)
    }
}

impl Clone for ContractOperation {
    fn clone(&self) -> (copy: Self)
        ensures
            copy@ == self@,
    {
        proof {
            use_type_invariant(self);
        }
        let parts = OperationParts {
            contract_id: self.parts.contract_id,
            call_id: self.parts.call_id,
            nonce: self.parts.nonce,
            witness: self.parts.witness,
            destructible_in: self.parts.destructible_in.clone(),
            immutable_in: self.parts.immutable_in.clone(),
            destructible_out: self.parts.destructible_out.clone(),
            immutable_out: self.parts.immutable_out.clone(),
        };
        proof {
            assert(parts.destructible_in@ =~= self.parts.destructible_in@);
            assert(parts.immutable_in@ =~= self.parts.immutable_in@);
            assert(parts.destructible_out@ =~= self.parts.destructible_out@);
            assert(parts.immutable_out@ =~= self.parts.immutable_out@);
        }
        ContractOperation { parts }
    }
}

/// What `ultrasonic::Operation::opid` returns for an operation.
pub uninterp spec fn operation_commitment(operation: OperationView) -> Opid;

/// `ultrasonic::Operation::opid`: the hash committing to all the data of the operation, which is
/// a function of those data alone.
#[verifier::external_body]
fn operation_id(operation: &ContractOperation) -> (id: Opid)
    ensures
        id == operation_commitment(operation@),
{
    Opid::from_byte_array(outer_operation(operation).opid().to_byte_array())
}

/// Converts an operation to `ultrasonic::Operation`, field by field; the reserved version bytes
/// have a single value. The lists fit, as those of every operation do.
#[verifier::external_body]
pub(crate) fn outer_operation(operation: &ContractOperation) -> ultrasonic::Operation {
    let parts = operation.parts();
    let id = [parts.contract_id.hi.to_be_bytes(), parts.contract_id.lo.to_be_bytes()].concat();
    let inputs = parts.destructible_in.iter().map(|i| (outer_addr(&i.addr), i.witness));
    ultrasonic::Operation {
        version: Default::default(),
        contract_id: ByteArray::from_slice_checked(id),
        call_id: parts.call_id,
        nonce: parts.nonce,
        witness: parts.witness,
        destructible_in: SmallVec::from_iter_checked(inputs.map(|(addr, witness)| ultrasonic::Input { addr, witness })),
        immutable_in: SmallVec::from_iter_checked(parts.immutable_in.iter().map(outer_addr)),
        destructible_out: SmallVec::from_iter_checked(parts.destructible_out.iter().map(outer_cell)),
        immutable_out: SmallVec::from_iter_checked(parts.immutable_out.iter().cloned()),
    }
}

/// Converts the address of a memory cell to `ultrasonic::CellAddr`.
#[verifier::external_body]
pub(crate) fn outer_addr(addr: &CellAddress) -> ultrasonic::CellAddr {
    let id = [addr.opid.hi.to_be_bytes(), addr.opid.lo.to_be_bytes()].concat();
    ultrasonic::CellAddr::new(ByteArray::from_slice_checked(id), addr.pos)
}

/// The `ultrasonic::StateCell` of the same value, token and lock as a destructible memory cell.
pub uninterp spec fn cell_to_outer(cell: DestructibleCell) -> ultrasonic::StateCell;

/// Converts a destructible memory cell to `ultrasonic::StateCell`; the token is the field element
/// of the same value, by `ultrasonic::AuthToken::from` and `ultrasonic::fe256::from`. What it
/// makes is a function of the cell alone.
#[verifier::external_body]
pub(crate) fn outer_cell(cell: &DestructibleCell) -> (outer: ultrasonic::StateCell)
    ensures
        outer == cell_to_outer(*cell),
{
    let token = [cell.auth.lo.to_le_bytes(), cell.auth.hi.to_le_bytes()].concat();
    let bytes: [u8; 32] = token.try_into().unwrap();
    ultrasonic::StateCell {
        data: cell.data,
        auth: ultrasonic::AuthToken::from(ultrasonic::fe256::from(bytes)),
        lock: cell.lock,
    }
}

/// The address of the bytes and of the output number of an `ultrasonic::CellAddr`.
pub uninterp spec fn address_of_outer(addr: ultrasonic::CellAddr) -> CellAddress;

/// Converts an `ultrasonic::CellAddr`: the address of the same bytes, by `Opid::to_byte_array`,
/// and the same output number. What it makes is a function of the address alone.
#[verifier::external_body]
pub(crate) fn addr_from_outer(addr: ultrasonic::CellAddr) -> (inner: CellAddress)
    ensures
        inner == address_of_outer(addr),
{
    CellAddress { opid: Opid::from_byte_array(addr.opid.to_byte_array()), pos: addr.pos }
}

} // verus!
