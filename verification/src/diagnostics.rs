//! Timing breakdown of a verification.
//!
//! The spans are measured around the calls to the reader and to the contract; the breakdown
//! attributes the total time to them.
use vstd::prelude::*;

verus! {

/// Tells whether the diagnostics of the verification are on.
pub fn verify_diag_enabled() -> (enabled: bool)
    ensures
        enabled,
{
    true
}

/// What was counted and measured during a verification. The spans are in nanoseconds.
#[derive(Clone, Copy)]
pub struct DiagTotals {
    /// Operations which are verified by a codex.
    pub verified_ops: usize,
    /// Operations whose closing of seals is verified.
    pub seal_close_ops: usize,
    /// Verification of operations by a codex.
    pub alu_verify_ns: u128,
    /// Verification of the closing of seals.
    pub seal_close_ns: u128,
    /// Reading of the consignment.
    pub read_ns: u128,
    /// Questions whether operations, witnesses and seals are known.
    pub known_check_ns: u128,
    /// Application of operations.
    pub apply_op_ns: u128,
    /// Application of seals and of witnesses.
    pub apply_seal_ns: u128,
    /// Application of witnesses.
    pub apply_witness_ns: u128,
    /// Application of seals.
    pub apply_seals_ns: u128,
    /// Comparison of seal definitions with the operation.
    pub subset_ns: u128,
    /// Work on the map of seals.
    pub seal_map_ns: u128,
    /// Resolution of seals.
    pub resolve_ns: u128,
    /// Computation of operation ids.
    pub opid_ns: u128,
    /// Computation of witness ids.
    pub pub_id_ns: u128,
    /// Computation of seals from definitions.
    pub seal_to_src_ns: u128,
}

/// The spans of a verification, in whole microseconds.
pub struct TimingBreakdown {
    /// Verification of operations by a codex.
    pub alu_verify_us: u128,
    /// The same for one operation.
    pub avg_alu_verify_us: u128,
    /// Verification of the closing of seals.
    pub seal_close_us: u128,
    /// The same for one operation.
    pub avg_seal_close_us: u128,
    /// Reading of the consignment.
    pub read_us: u128,
    /// Questions whether operations, witnesses and seals are known.
    pub known_check_us: u128,
    /// Comparison of seal definitions with the operation.
    pub subset_us: u128,
    /// Work on the map of seals.
    pub seal_map_us: u128,
    /// Resolution of seals.
    pub resolve_us: u128,
    /// Computation of operation ids.
    pub opid_us: u128,
    /// Computation of witness ids.
    pub pub_id_us: u128,
    /// Computation of seals from definitions.
    pub seal_to_src_us: u128,
    /// Application of operations, of seals and of witnesses.
    pub apply_us: u128,
    /// Application of operations.
    pub apply_op_us: u128,
    /// Application of seals and of witnesses.
    pub apply_seal_us: u128,
    /// Application of witnesses.
    pub apply_witness_us: u128,
    /// Application of seals.
    pub apply_seals_us: u128,
    /// Whatever the named spans do not cover.
    pub misc_us: u128,
    /// The whole verification.
    pub total_us: u128,
}

impl TimingBreakdown {
    /// The time which the named spans cover, each part counted once.
    pub open spec fn covered(self) -> int {
        self.alu_verify_us + self.seal_close_us + self.read_us + self.known_check_us + self.apply_us
            + self.subset_us + self.seal_map_us + self.resolve_us + self.opid_us + self.pub_id_us
            + self.seal_to_src_us
    }
}

/// The share of each of a number of operations in a span; none where there are no operations.
pub open spec fn average(span: u128, ops: usize) -> int {
    if ops > 0 {
        span as int / ops as int
    } else {
        0
    }
}

/// Returns the share of each of a number of operations in a span.
fn average_of(span: u128, ops: usize) -> (share: u128)
    ensures
        share == average(span, ops),
{
    if ops > 0 {
        span / ops as u128
    } else {
        0
    }
}

impl DiagTotals {
    /// Attributes the total time of a verification to its spans.
    pub fn breakdown(&self, total_us: u128) -> (breakdown: TimingBreakdown)
        ensures
            breakdown.alu_verify_us == self.alu_verify_ns / 1000,
            breakdown.avg_alu_verify_us == average(breakdown.alu_verify_us, self.verified_ops),
            breakdown.seal_close_us == self.seal_close_ns / 1000,
            breakdown.avg_seal_close_us == average(breakdown.seal_close_us, self.seal_close_ops),
            breakdown.read_us == self.read_ns / 1000,
            breakdown.known_check_us == self.known_check_ns / 1000,
            breakdown.subset_us == self.subset_ns / 1000,
            breakdown.seal_map_us == self.seal_map_ns / 1000,
            breakdown.resolve_us == self.resolve_ns / 1000,
            breakdown.opid_us == self.opid_ns / 1000,
            breakdown.pub_id_us == self.pub_id_ns / 1000,
            breakdown.seal_to_src_us == self.seal_to_src_ns / 1000,
            breakdown.apply_op_us == self.apply_op_ns / 1000,
            breakdown.apply_seal_us == self.apply_seal_ns / 1000,
            breakdown.apply_us == breakdown.apply_op_us + breakdown.apply_seal_us,
            breakdown.apply_witness_us == self.apply_witness_ns / 1000,
            breakdown.apply_seals_us == self.apply_seals_ns / 1000,
            breakdown.misc_us == (if breakdown.covered() <= total_us {
                total_us - breakdown.covered()
            } else {
                0
            }),
            breakdown.total_us == total_us,
    {
        let alu_verify_us: u128 = self.alu_verify_ns / 1000;
        let seal_close_us: u128 = self.seal_close_ns / 1000;
        let read_us: u128 = self.read_ns / 1000;
        let known_check_us: u128 = self.known_check_ns / 1000;
        let apply_op_us: u128 = self.apply_op_ns / 1000;
        let apply_seal_us: u128 = self.apply_seal_ns / 1000;
        let apply_us: u128 = apply_op_us + apply_seal_us;
        let subset_us: u128 = self.subset_ns / 1000;
        let seal_map_us: u128 = self.seal_map_ns / 1000;
        let resolve_us: u128 = self.resolve_ns / 1000;
        let opid_us: u128 = self.opid_ns / 1000;
        let pub_id_us: u128 = self.pub_id_ns / 1000;
        let seal_to_src_us: u128 = self.seal_to_src_ns / 1000;
        let covered: u128 = alu_verify_us + seal_close_us + read_us + known_check_us + apply_us
            + subset_us + seal_map_us + resolve_us + opid_us + pub_id_us + seal_to_src_us;
        TimingBreakdown {
            alu_verify_us,
            avg_alu_verify_us: average_of(alu_verify_us, self.verified_ops),
            seal_close_us,
            avg_seal_close_us: average_of(seal_close_us, self.seal_close_ops),
            read_us,
            known_check_us,
            subset_us,
            seal_map_us,
            resolve_us,
            opid_us,
            pub_id_us,
            seal_to_src_us,
            apply_us,
            apply_op_us,
            apply_seal_us,
            apply_witness_us: self.apply_witness_ns / 1000,
            apply_seals_us: self.apply_seals_ns / 1000,
            misc_us: total_us.saturating_sub(covered),
            total_us,
        }
    }
}

} // verus!
