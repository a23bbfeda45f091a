//! Laws that relate the library's operations across calls, proved once and
//! for all inputs.

use vstd::prelude::*;

use crate::actions::{Balance, Gas, GasWeight};
use crate::ids::DataId;
use crate::manager::{assigned_gas, weights_sum, FunctionCallActionIndex};
use crate::receipts::{finalized_records, ReceiptMetadataView};

verus! {

/// The sum of the gas granted to the first `k` registry entries.
pub open spec fn assigned_total(
    gas: Gas,
    gws: Seq<(FunctionCallActionIndex, GasWeight)>,
    k: int,
) -> int
    decreases k,
{
    if k <= 0 {
        0
    } else {
        assigned_total(gas, gws, k - 1) + assigned_gas(gas, gws, k - 1)
    }
}

/// Before the last entry, the grants add up to the floor share times the
/// weight of the prefix.
proof fn lemma_assigned_total_prefix(
    gas: Gas,
    gws: Seq<(FunctionCallActionIndex, GasWeight)>,
    k: int,
)
    requires
        weights_sum(gws) > 0,
        0 <= k < gws.len(),
    ensures
        assigned_total(gas, gws, k) == (gas as int / weights_sum(gws)) * weights_sum(gws.take(k)),
    decreases k,
{
    let per = gas as int / weights_sum(gws);
    if k == 0 {
        assert(gws.take(0) =~= Seq::<(FunctionCallActionIndex, GasWeight)>::empty());
        assert(per * weights_sum(gws.take(0)) == 0) by (nonlinear_arith)
            requires weights_sum(gws.take(0)) == 0;
    } else {
        lemma_assigned_total_prefix(gas, gws, k - 1);
        assert(gws.take(k).drop_last() =~= gws.take(k - 1));
        assert(gws.take(k).last() == gws[k - 1]);
        vstd::arithmetic::mul::lemma_mul_is_distributive_add(
            per,
            weights_sum(gws.take(k - 1)),
            gws[k - 1].1.0 as int,
        );
    }
}

/// Distribution never leaks: when any weight was recorded, the per-entry
/// grants — the floor share for each entry plus the remainder for the last
/// one — add up to exactly the gas supplied.
pub proof fn lemma_distribution_disburses_all(
    gas: Gas,
    gws: Seq<(FunctionCallActionIndex, GasWeight)>,
)
    requires
        weights_sum(gws) > 0,
    ensures
        assigned_total(gas, gws, gws.len() as int) == gas,
{
    let per = gas as int / weights_sum(gws);
    let n = gws.len() as int;
    lemma_assigned_total_prefix(gas, gws, n - 1);
    assert(gws.take(n - 1) =~= gws.drop_last());
    vstd::arithmetic::mul::lemma_mul_is_distributive_add(
        per,
        weights_sum(gws.drop_last()),
        gws.last().1.0 as int,
    );
    assert(weights_sum(gws.drop_last()) + gws.last().1.0 == weights_sum(gws));
    assert(assigned_total(gas, gws, n) == assigned_total(gas, gws, n - 1) + assigned_gas(
        gas,
        gws,
        n - 1,
    ));
}

/// Finalization is exact: draining a store of `n` entries yields `n`
/// records in creation order; record `i` carries entry `i`'s receiver
/// account and its accumulated metadata unchanged, an unassigned receipt
/// identity, and the context fields shared by every record.
pub proof fn lemma_finalization_exact(
    receipts: Seq<(Seq<char>, ReceiptMetadataView)>,
    predecessor_id: Seq<char>,
    signer_id: Seq<char>,
    signer_public_key: Seq<u8>,
    gas_price: Balance,
)
    ensures
        finalized_records(
            receipts,
            predecessor_id,
            signer_id,
            signer_public_key,
            gas_price,
        ).len() == receipts.len(),
        forall|i: int|
            0 <= i < receipts.len() ==> {
                let record = #[trigger] finalized_records(
                    receipts,
                    predecessor_id,
                    signer_id,
                    signer_public_key,
                    gas_price,
                )[i];
                &&& record.receiver_id == receipts[i].0
                &&& record.output_data_receivers == receipts[i].1.output_data_receivers
                &&& record.input_data_ids == receipts[i].1.input_data_ids
                &&& record.actions == receipts[i].1.actions
                &&& record.predecessor_id == predecessor_id
                &&& record.signer_id == signer_id
                &&& record.signer_public_key == signer_public_key
                &&& record.gas_price == gas_price
                &&& record.receipt_id == DataId::unassigned_spec()
            },
{
}

/// Round trip: every action accumulated against a pending receipt is
/// retrievable unchanged — same kind, same field values, same position —
/// from the corresponding finalization record.
pub proof fn lemma_actions_round_trip(
    receipts: Seq<(Seq<char>, ReceiptMetadataView)>,
    predecessor_id: Seq<char>,
    signer_id: Seq<char>,
    signer_public_key: Seq<u8>,
    gas_price: Balance,
    i: int,
    k: int,
)
    requires
        0 <= i < receipts.len(),
        0 <= k < receipts[i].1.actions.len(),
    ensures
        finalized_records(receipts, predecessor_id, signer_id, signer_public_key, gas_price)[
            i].actions[k] == receipts[i].1.actions[k],
{
}

} // verus!
