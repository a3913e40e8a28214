//! The text of verification errors.
use std::collections::{BTreeMap, BTreeSet};

use vstd::prelude::*;
use vstd::string::StringExecFns;

use crate::codex::{outer_call_error, CallFailure};
use crate::error::{ErrorView, VerificationError};
use crate::ids::{AuthToken, CellAddress, Opid};
use crate::operation::outer_addr;
use crate::seals::RgbSeal;

verus! {

/// A value which can be shown as text.
pub trait Described {
    /// The characters of what [`Self::to_text`] returns.
    open spec fn text(&self) -> Seq<char> {
        arbitrary()
    }

    /// Returns the value as text.
    fn to_text(&self) -> (text: String)
        ensures
            text@ == self.text(),
    ;
}

/// What `ultrasonic` displays for an operation id.
pub uninterp spec fn opid_text(opid: Opid) -> Seq<char>;

/// The `Display` of `ultrasonic::Opid`: the id in its Baid64 form, which is a function of the id
/// alone.
#[verifier::external_body]
fn show_opid(opid: Opid) -> (text: String)
    ensures
        text@ == opid_text(opid),
{
    format!("{}", outer_addr(&CellAddress { opid, pos: 0 }).opid)
}

/// A decimal digit.
pub open spec fn digit(n: nat) -> char {
    if n == 0 {
        '0'
    } else if n == 1 {
        '1'
    } else if n == 2 {
        '2'
    } else if n == 3 {
        '3'
    } else if n == 4 {
        '4'
    } else if n == 5 {
        '5'
    } else if n == 6 {
        '6'
    } else if n == 7 {
        '7'
    } else if n == 8 {
        '8'
    } else {
        '9'
    }
}

/// A number in decimal digits.
pub open spec fn decimal(n: nat) -> Seq<char>
    decreases n,
{
    if n < 10 {
        seq![digit(n)]
    } else {
        decimal(n / 10).push(digit(n % 10))
    }
}

/// Returns a decimal digit.
fn show_digit(n: u16) -> (text: &'static str)
    requires
        n < 10,
    ensures
        text@ == seq![digit(n as nat)],
{
    proof {
        reveal_strlit("0");
        reveal_strlit("1");
        reveal_strlit("2");
        reveal_strlit("3");
        reveal_strlit("4");
        reveal_strlit("5");
        reveal_strlit("6");
        reveal_strlit("7");
        reveal_strlit("8");
        reveal_strlit("9");
    }
    let text = match n {
        0 => "0",
        1 => "1",
        2 => "2",
        3 => "3",
        4 => "4",
        5 => "5",
        6 => "6",
        7 => "7",
        8 => "8",
        _ => "9",
    };
    assert(text@ =~= seq![digit(n as nat)]);
    text
}

/// Returns a number in decimal digits.
fn show_number(n: u16) -> (text: String)
    ensures
        text@ == decimal(n as nat),
    decreases n,
{
    if n < 10 {
        String::from_str(show_digit(n))
    } else {
        let text = show_number(n / 10).concat(show_digit(n % 10));
        assert(text@ =~= decimal(n as nat));
        text
    }
}

/// The text of the address of a memory cell: the operation id, a colon and the number of the
/// output.
pub open spec fn address_text(addr: CellAddress) -> Seq<char> {
    opid_text(addr.opid) + ":"@ + decimal(addr.pos as nat)
}

/// Returns the text of the address of a memory cell.
fn show_address(addr: &CellAddress) -> (text: String)
    ensures
        text@ == address_text(*addr),
{
    show_opid(addr.opid).concat(":").concat(&show_number(addr.pos))
}

/// What `ultrasonic` and std show, in the alternate debug form, for an ordered set of tokens.
pub uninterp spec fn tokens_text(tokens: Set<AuthToken>) -> Seq<char>;

/// The alternate `Debug` of a `BTreeSet` of `ultrasonic::AuthToken`, which is a function of the
/// set alone.
#[verifier::external_body]
fn show_tokens(tokens: &BTreeSet<(u128, u128)>) -> (text: String)
    ensures
        text@ == tokens_text(crate::error::token_set(tokens@)),
{
    let mut outer: BTreeSet<ultrasonic::AuthToken> = BTreeSet::new();
    for (hi, lo) in tokens {
        let bytes: [u8; 32] = [lo.to_le_bytes(), hi.to_le_bytes()].concat().try_into().unwrap();
        outer.insert(ultrasonic::AuthToken::from(ultrasonic::fe256::from(bytes)));
    }
    format!("{:#?}", outer)
}

/// What std shows, in the alternate debug form, for an ordered map of texts.
pub uninterp spec fn sources_text(sources: Map<u16, Seq<char>>) -> Seq<char>;

/// The alternate `Debug` of a `BTreeMap` of strings, which is a function of the map alone.
#[verifier::external_body]
fn show_sources(sources: &BTreeMap<u16, String>) -> (text: String)
    ensures
        text@ == sources_text(sources@.map_values(|source: String| source@)),
{
    format!("{:#?}", sources)
}

/// What `ultrasonic` displays for the reason for which a codex refuses an operation.
pub uninterp spec fn failure_text(failure: CallFailure) -> Seq<char>;

/// The `Display` of `ultrasonic::CallError`, which is a function of the reason alone.
#[verifier::external_body]
fn show_failure(failure: &CallFailure) -> (text: String)
    ensures
        text@ == failure_text(*failure),
{
    format!("{}", outer_call_error(failure))
}

impl<Seal: RgbSeal, ReadError: Described> ErrorView<Seal, ReadError> where
    Seal::PubId: Described,
    Seal::ClosingError: Described,
 {
    /// The text of the error.
    pub open spec fn message(self) -> Seq<char> {
        match self {
            ErrorView::Stream(error) => "error reading the consignment stream.\nDetails: "@
                + error.text(),
            ErrorView::NoCodexCommitment =>
                "genesis does not commit to the codex id; a wrong contract genesis is used."@,
            ErrorView::NoWitness(opid) => "no witness known for the operation "@ + opid_text(opid)
                + "."@,
            ErrorView::SealsNotClosed(pub_id, opid, error) =>
                "single-use seals are not closed properly with witness "@ + pub_id.text()
                + " for operation "@ + opid_text(opid) + ".\nDetails: "@ + error.text(),
            ErrorView::SealUnknown(addr) => "unknown seal definition for cell address "@
                + address_text(addr) + "."@,
            ErrorView::SealsDefinitionMismatch { opid, reported, defined, sources } =>
                "seals, reported to be defined by the operation "@ + opid_text(opid)
                + ", do match the assignments in the operation.\nActual operation seals from the assignments: "@
                + tokens_text(defined) + "\nReported seals: "@ + tokens_text(reported)
                + "\nSources for the reported seals: "@ + sources_text(sources),
            ErrorView::Vm(failure) => failure_text(failure),
            ErrorView::OpidMemoMismatch { memoized, recomputed } =>
                "RGB verify opid memo mismatch (non-genesis): memoized "@ + opid_text(memoized)
                + " != recomputed "@ + opid_text(recomputed),
        }
    }
}

impl<Seal: RgbSeal, ReadError: Described> VerificationError<Seal, ReadError> where
    Seal::PubId: Described,
    Seal::ClosingError: Described,
 {
    /// Returns the text of the error.
    pub fn to_text(&self) -> (text: String)
        ensures
            text@ == self@.message(),
    {
        match self {
            VerificationError::Stream(error) => joined(
                "error reading the consignment stream.\nDetails: ",
                &error.to_text(),
            ),
            VerificationError::NoCodexCommitment => String::from_str(
                "genesis does not commit to the codex id; a wrong contract genesis is used.",
            ),
            VerificationError::NoWitness(opid) => joined(
                "no witness known for the operation ",
                &show_opid(*opid),
            ).concat("."),
            VerificationError::SealsNotClosed(pub_id, opid, error) => joined(
                "single-use seals are not closed properly with witness ",
                &pub_id.to_text(),
            ).concat(" for operation ").concat(&show_opid(*opid)).concat(".\nDetails: ").concat(
                &error.to_text(),
            ),
            VerificationError::SealUnknown(addr) => joined(
                "unknown seal definition for cell address ",
                &show_address(addr),
            ).concat("."),
            VerificationError::SealsDefinitionMismatch { opid, reported, defined, sources } => {
                joined("seals, reported to be defined by the operation ", &show_opid(*opid)).concat(
                    ", do match the assignments in the operation.\nActual operation seals from the assignments: ",
                ).concat(&show_tokens(defined)).concat("\nReported seals: ").concat(
                    &show_tokens(reported),
                ).concat("\nSources for the reported seals: ").concat(&show_sources(sources))
            },
            VerificationError::Vm(failure) => show_failure(failure),
            VerificationError::OpidMemoMismatch { memoized, recomputed } => joined(
                "RGB verify opid memo mismatch (non-genesis): memoized ",
                &show_opid(*memoized),
            ).concat(" != recomputed ").concat(&show_opid(*recomputed)),
        }
    }
}

/// Returns a text followed by another one.
fn joined(first: &str, second: &String) -> (text: String)
    ensures
        text@ == first@ + second@,
{
    String::from_str(first).concat(second.as_str())
}

} // verus!
