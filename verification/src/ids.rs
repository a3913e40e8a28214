//! Identifiers of operations, contracts, codexes and libraries, addresses of memory cells and
//! tokens of authority, as plain integers.
//!
//! A 32-byte identifier is kept as the two halves of its big-endian value, so that the order of
//! the pairs `(hi, lo)` is the order of the byte strings.
use vstd::prelude::*;

verus! {

/// The integer which a byte string is the big-endian form of.
pub open spec fn be_value(bytes: Seq<u8>) -> nat
    decreases bytes.len(),
{
    if bytes.len() == 0 {
        0
    } else {
        be_value(bytes.drop_last()) * 256 + bytes.last() as nat
    }
}

/// A byte string of at most sixteen bytes is the big-endian form of a 128-bit integer.
proof fn lemma_be_value_bound(bytes: Seq<u8>)
    ensures
        be_value(bytes) < vstd::arithmetic::power::pow(256, bytes.len()),
    decreases bytes.len(),
{
    reveal(vstd::arithmetic::power::pow);
    if bytes.len() > 0 {
        lemma_be_value_bound(bytes.drop_last());
    }
}

/// Returns the integer which sixteen of the bytes are the big-endian form of.
fn be_half(bytes: &[u8; 32], start: usize) -> (value: u128)
    requires
        start <= 16,
    ensures
        value == be_value(bytes@.subrange(start as int, start + 16)),
{
    let mut value: u128 = 0;
    let mut i: usize = 0;
    let ghost half = bytes@.subrange(start as int, start + 16);
    while i < 16
        invariant
            i <= 16,
            start <= 16,
            half == bytes@.subrange(start as int, start + 16),
            value == be_value(half.take(i as int)),
        decreases 16 - i,
    {
        proof {
            let next = half.take(i + 1);
            assert(next.drop_last() =~= half.take(i as int));
            lemma_be_value_bound(next);
            vstd::arithmetic::power::lemma_pow_increases(256, next.len(), 16);
            assert(vstd::arithmetic::power::pow(256, 16) == 0x1_0000_0000_0000_0000_0000_0000_0000_0000) by {
                reveal_with_fuel(vstd::arithmetic::power::pow, 17);
            }
        }
        value = value * 256 + bytes[start + i] as u128;
        i = i + 1;
    }
    assert(half.take(16) =~= half);
    value
}

/// Identifier of an operation: a commitment to all its data.
#[derive(Clone, Copy, PartialEq, Eq, Structural, Debug, Hash, PartialOrd, Ord)]
pub struct Opid {
    /// The first sixteen bytes.
    pub hi: u128,
    /// The last sixteen bytes.
    pub lo: u128,
}

/// Identifier of a contract.
#[derive(Clone, Copy, PartialEq, Eq, Structural, Debug, Hash, PartialOrd, Ord)]
pub struct ContractId {
    /// The first sixteen bytes.
    pub hi: u128,
    /// The last sixteen bytes.
    pub lo: u128,
}

/// Identifier of a codex: a commitment to all its data.
#[derive(Clone, Copy, PartialEq, Eq, Structural, Debug, Hash, PartialOrd, Ord)]
pub struct CodexId {
    /// The first sixteen bytes.
    pub hi: u128,
    /// The last sixteen bytes.
    pub lo: u128,
}

/// Identifier of a script library: a commitment to all its data.
#[derive(Clone, Copy, PartialEq, Eq, Structural, Debug, Hash, PartialOrd, Ord)]
pub struct LibraryId {
    /// The first sixteen bytes.
    pub hi: u128,
    /// The last sixteen bytes.
    pub lo: u128,
}

/// Token of authority of a destructible memory cell: a commitment to a seal definition, as the
/// value of a 256-bit field element.
#[derive(Clone, Copy, PartialEq, Eq, Structural, Debug, Hash, PartialOrd, Ord)]
pub struct AuthToken {
    /// The most significant 128 bits.
    pub hi: u128,
    /// The least significant 128 bits.
    pub lo: u128,
}

impl AuthToken {
    /// The token as a pair of integers, by which sets of tokens are ordered.
    pub open spec fn spec_key(self) -> (u128, u128) {
        (self.hi, self.lo)
    }

    /// Returns the token as a pair of integers.
    pub fn key(&self) -> (key: (u128, u128))
        ensures
            key == self.spec_key(),
    {
        (self.hi, self.lo)
    }
}

/// Address of a memory cell: the operation which defines it and the number of the output.
#[derive(Clone, Copy, PartialEq, Eq, Structural, Debug, Hash, PartialOrd, Ord)]
pub struct CellAddress {
    /// The operation which defines the cell.
    pub opid: Opid,
    /// The number of the operation output which defines the cell.
    pub pos: u16,
}

impl CellAddress {
    /// The address as a tuple of integers, by which maps of cells are ordered.
    pub open spec fn spec_key(self) -> (u128, u128, u16) {
        (self.opid.hi, self.opid.lo, self.pos)
    }

    /// Makes the address of an output of an operation.
    pub fn new(opid: Opid, pos: u16) -> (addr: CellAddress)
        ensures
            addr.opid == opid,
            addr.pos == pos,
    {
        CellAddress { opid, pos }
    }

    /// Returns the address as a tuple of integers.
    pub fn key(&self) -> (key: (u128, u128, u16))
        ensures
            key == self.spec_key(),
    {
        (self.opid.hi, self.opid.lo, self.pos)
    }
}

impl ContractId {
    /// Whether two identifiers of different kinds are the same bytes.
    pub open spec fn same_bytes(self, codex_id: CodexId) -> bool {
        self.hi == codex_id.hi && self.lo == codex_id.lo
    }

    /// Tells whether the bytes of the identifier are those of a codex id, as they are in a
    /// genesis.
    pub fn is_codex_id(&self, codex_id: CodexId) -> (same: bool)
        ensures
            same == self.same_bytes(codex_id),
    {
        self.hi == codex_id.hi && self.lo == codex_id.lo
    }
}

impl Opid {
    /// Makes the identifier of an operation from its bytes.
    pub fn from_byte_array(bytes: [u8; 32]) -> (id: Opid)
        ensures
            id.hi == be_value(bytes@.subrange(0, 16)),
            id.lo == be_value(bytes@.subrange(16, 32)),
    {
        Opid { hi: be_half(&bytes, 0), lo: be_half(&bytes, 16) }
    }
}

impl ContractId {
    /// Makes the identifier of a contract from its bytes.
    pub fn from_byte_array(bytes: [u8; 32]) -> (id: ContractId)
        ensures
            id.hi == be_value(bytes@.subrange(0, 16)),
            id.lo == be_value(bytes@.subrange(16, 32)),
    {
        ContractId { hi: be_half(&bytes, 0), lo: be_half(&bytes, 16) }
    }
}

impl CodexId {
    /// Makes the identifier of a codex from its bytes.
    pub fn from_byte_array(bytes: [u8; 32]) -> (id: CodexId)
        ensures
            id.hi == be_value(bytes@.subrange(0, 16)),
            id.lo == be_value(bytes@.subrange(16, 32)),
    {
        CodexId { hi: be_half(&bytes, 0), lo: be_half(&bytes, 16) }
    }
}

impl LibraryId {
    /// Makes the identifier of a library from its bytes.
    pub fn from_byte_array(bytes: [u8; 32]) -> (id: LibraryId)
        ensures
            id.hi == be_value(bytes@.subrange(0, 16)),
            id.lo == be_value(bytes@.subrange(16, 32)),
    {
        LibraryId { hi: be_half(&bytes, 0), lo: be_half(&bytes, 16) }
    }
}

} // verus!
