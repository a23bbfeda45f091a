//! The receipt manager: creates pending receipts, appends actions, tracks
//! gas-weight requests, distributes unused gas, and hands the store over for
//! finalization.

use vstd::pervasive::unreached;
use vstd::prelude::*;
use vstd::utf8::{decode_utf8, valid_utf8};

use crate::actions::{AccessKey, AccessKeyPermission, AccessKeyPermissionView, AccessKeyView, Action, ActionView, Balance, FunctionCallPermission, FunctionCallPermissionView, Gas, GasWeight};
use crate::crypto::{is_valid_key_encoding, PublicKey};
use crate::errors::HostError;
use crate::ids::{DataId, DataIdSource};
use crate::receipts::{ActionReceipts, DataReceiver, DataReceiverView, ReceiptMetadata, ReceiptMetadataView};

verus! {

/// The position of one function-call action: which pending receipt it sits
/// in, and where in that receipt's action list.
#[derive(Debug, Clone, Copy, PartialEq, Eq, Structural)]
pub struct FunctionCallActionIndex {
    pub receipt_index: usize,
    pub action_index: usize,
}

/// How a distribution pass ended: either no weighted requests were ever
/// recorded, or the whole amount was disbursed.
#[derive(Debug, Clone, Copy, PartialEq, Eq, Structural)]
pub enum GasDistribution {
    NoRatios,
    All,
}

/// True when `idx` resolves to a function-call action of `receipts`.
pub open spec fn gas_weight_target_ok(
    receipts: Seq<(Seq<char>, ReceiptMetadataView)>,
    idx: FunctionCallActionIndex,
) -> bool {
    &&& (idx.receipt_index as int) < receipts.len()
    &&& (idx.action_index as int) < receipts[idx.receipt_index as int].1.actions.len()
    &&& receipts[idx.receipt_index as int].1.actions[idx.action_index as int] is FunctionCall
}

/// The store after appending one action at the end of receipt `i`'s action
/// list; nothing else changes.
pub open spec fn store_with_appended(
    receipts: Seq<(Seq<char>, ReceiptMetadataView)>,
    i: int,
    action: ActionView,
) -> Seq<(Seq<char>, ReceiptMetadataView)> {
    receipts.update(
        i,
        (
            receipts[i].0,
            ReceiptMetadataView {
                output_data_receivers: receipts[i].1.output_data_receivers,
                input_data_ids: receipts[i].1.input_data_ids,
                actions: receipts[i].1.actions.push(action),
            },
        ),
    )
}

/// True when every entry of `deps` is a valid handle into a store of `n`
/// receipts.
pub open spec fn all_indices_valid(deps: Seq<u64>, n: int) -> bool {
    forall|j: int| 0 <= j < deps.len() ==> ((#[trigger] deps[j]) as int) < n
}

/// The store after registering one output receiver on receipt `dep`: the
/// freshly minted identifier, to be hosted by `receiver_id`.
pub open spec fn store_with_link(
    receipts: Seq<(Seq<char>, ReceiptMetadataView)>,
    dep: int,
    id: DataId,
    receiver_id: Seq<char>,
) -> Seq<(Seq<char>, ReceiptMetadataView)> {
    receipts.update(
        dep,
        (
            receipts[dep].0,
            ReceiptMetadataView {
                output_data_receivers: receipts[dep].1.output_data_receivers.push(
                    DataReceiverView { data_id: id, receiver_id },
                ),
                input_data_ids: receipts[dep].1.input_data_ids,
                actions: receipts[dep].1.actions,
            },
        ),
    )
}

/// The store after linking, in input order, each dependency `deps[j]` with
/// the minted identifier `ids[j]`.
pub open spec fn store_with_links(
    receipts: Seq<(Seq<char>, ReceiptMetadataView)>,
    deps: Seq<u64>,
    ids: Seq<DataId>,
    receiver_id: Seq<char>,
) -> Seq<(Seq<char>, ReceiptMetadataView)>
    decreases deps.len(),
{
    if deps.len() == 0 {
        receipts
    } else {
        store_with_links(
            store_with_link(receipts, deps[0] as int, ids[0], receiver_id),
            deps.skip(1),
            ids.skip(1),
            receiver_id,
        )
    }
}

/// Linking one more dependency at the end factors out of the fold.
pub proof fn lemma_links_snoc(
    receipts: Seq<(Seq<char>, ReceiptMetadataView)>,
    deps: Seq<u64>,
    ids: Seq<DataId>,
    dep: u64,
    id: DataId,
    receiver_id: Seq<char>,
)
    requires
        ids.len() == deps.len(),
    ensures
        store_with_links(receipts, deps.push(dep), ids.push(id), receiver_id)
            == store_with_link(
            store_with_links(receipts, deps, ids, receiver_id),
            dep as int,
            id,
            receiver_id,
        ),
    decreases deps.len(),
{
    if deps.len() == 0 {
        assert(deps.push(dep)[0] == dep);
        assert(ids.push(id)[0] == id);
        assert(deps.push(dep).skip(1) =~= Seq::<u64>::empty());
        assert(ids.push(id).skip(1) =~= Seq::<DataId>::empty());
        assert(store_with_links(receipts, deps, ids, receiver_id) == receipts);
        let once = store_with_link(receipts, dep as int, id, receiver_id);
        assert(store_with_links(once, deps.push(dep).skip(1), ids.push(id).skip(1), receiver_id)
            == once);
        assert(store_with_links(receipts, deps.push(dep), ids.push(id), receiver_id) == once);
    } else {
        assert(deps.push(dep)[0] == deps[0]);
        assert(ids.push(id)[0] == ids[0]);
        assert(deps.push(dep).skip(1) =~= deps.skip(1).push(dep));
        assert(ids.push(id).skip(1) =~= ids.skip(1).push(id));
        let once = store_with_link(receipts, deps[0] as int, ids[0], receiver_id);
        lemma_links_snoc(once, deps.skip(1), ids.skip(1), dep, id, receiver_id);
        assert(store_with_links(receipts, deps.push(dep), ids.push(id), receiver_id)
            == store_with_links(once, deps.skip(1).push(dep), ids.skip(1).push(id), receiver_id));
        assert(store_with_links(receipts, deps, ids, receiver_id) == store_with_links(
            once,
            deps.skip(1),
            ids.skip(1),
            receiver_id,
        ));
    }
}

/// Linking dependencies changes nothing but the referenced receipts'
/// output-receiver lists: receiver accounts, input dependencies and actions
/// are untouched everywhere, and a receipt no dependency names keeps its
/// whole entry.
pub proof fn lemma_links_preserve(
    receipts: Seq<(Seq<char>, ReceiptMetadataView)>,
    deps: Seq<u64>,
    ids: Seq<DataId>,
    receiver_id: Seq<char>,
)
    requires
        ids.len() == deps.len(),
        all_indices_valid(deps, receipts.len() as int),
    ensures
        store_with_links(receipts, deps, ids, receiver_id).len() == receipts.len(),
        forall|i: int|
            0 <= i < receipts.len() ==> {
                let linked = #[trigger] store_with_links(receipts, deps, ids, receiver_id)[i];
                &&& linked.0 == receipts[i].0
                &&& linked.1.input_data_ids == receipts[i].1.input_data_ids
                &&& linked.1.actions == receipts[i].1.actions
            },
        forall|i: int|
            0 <= i < receipts.len() && !deps.contains(i as u64)
                ==> #[trigger] store_with_links(receipts, deps, ids, receiver_id)[i]
                == receipts[i],
    decreases deps.len(),
{
    if deps.len() > 0 {
        let once = store_with_link(receipts, deps[0] as int, ids[0], receiver_id);
        assert(all_indices_valid(deps.skip(1), once.len() as int)) by {
            assert forall|j: int|
                0 <= j < deps.skip(1).len() implies ((#[trigger] deps.skip(1)[j]) as int)
                < once.len() by {
                assert(deps.skip(1)[j] == deps[j + 1]);
            }
        }
        lemma_links_preserve(once, deps.skip(1), ids.skip(1), receiver_id);
        assert forall|i: int|
            0 <= i < receipts.len() && !deps.contains(i as u64)
                implies #[trigger] store_with_links(receipts, deps, ids, receiver_id)[i]
            == receipts[i] by {
            assert(deps[0] != i as u64);
            assert(once[i] == receipts[i]);
            assert(!deps.skip(1).contains(i as u64)) by {
                if deps.skip(1).contains(i as u64) {
                    let j = choose|j: int|
                        0 <= j < deps.skip(1).len() && deps.skip(1)[j] == i as u64;
                    assert(deps[j + 1] == i as u64);
                }
            }
        }
    }
}

/// True when every name in `names` is valid UTF-8.
pub open spec fn all_method_names_valid(names: Seq<Vec<u8>>) -> bool {
    forall|j: int| 0 <= j < names.len() ==> valid_utf8((#[trigger] names[j])@)
}

/// The method names decoded from their byte form.
pub open spec fn decoded_method_names(names: Seq<Vec<u8>>) -> Seq<Seq<char>> {
    names.map_values(|n: Vec<u8>| decode_utf8(n@))
}

/// The sum of all recorded weights.
pub open spec fn weights_sum(gws: Seq<(FunctionCallActionIndex, GasWeight)>) -> int
    decreases gws.len(),
{
    if gws.len() == 0 {
        0
    } else {
        weights_sum(gws.drop_last()) + gws.last().1.0
    }
}

/// The gas field of the function-call action at `idx`.
pub open spec fn action_gas(
    receipts: Seq<(Seq<char>, ReceiptMetadataView)>,
    idx: FunctionCallActionIndex,
) -> int
    recommends
        gas_weight_target_ok(receipts, idx),
{
    receipts[idx.receipt_index as int].1.actions[idx.action_index as int]->FunctionCall_gas as int
}

/// The same function-call action with `extra` more gas attached; any other
/// action is left alone.
pub open spec fn gas_bumped(a: ActionView, extra: int) -> ActionView {
    match a {
        ActionView::FunctionCall { method_name, args, gas, deposit } => (ActionView::FunctionCall {
            method_name,
            args,
            gas: (gas + extra) as Gas,
            deposit,
        }),
        _ => a,
    }
}

/// The store after adding `extra` gas to the function-call action at `idx`.
pub open spec fn store_with_bumped(
    receipts: Seq<(Seq<char>, ReceiptMetadataView)>,
    idx: FunctionCallActionIndex,
    extra: int,
) -> Seq<(Seq<char>, ReceiptMetadataView)> {
    let i = idx.receipt_index as int;
    let k = idx.action_index as int;
    receipts.update(
        i,
        (
            receipts[i].0,
            ReceiptMetadataView {
                output_data_receivers: receipts[i].1.output_data_receivers,
                input_data_ids: receipts[i].1.input_data_ids,
                actions: receipts[i].1.actions.update(
                    k,
                    gas_bumped(receipts[i].1.actions[k], extra),
                ),
            },
        ),
    )
}

/// The gas granted to registry entry `j` when `gas` is distributed over the
/// registry: the floor share per weight unit times the entry's weight; the
/// last entry additionally receives the remainder that floor division left
/// over.
pub open spec fn assigned_gas(
    gas: Gas,
    gws: Seq<(FunctionCallActionIndex, GasWeight)>,
    j: int,
) -> int
    recommends
        weights_sum(gws) > 0,
        0 <= j < gws.len(),
{
    let sum = weights_sum(gws);
    let per = gas as int / sum;
    per * (gws[j].1.0 as int) + if j == gws.len() - 1 {
        gas - per * sum
    } else {
        0
    }
}

/// True when some registry entry points at action `k` of receipt `i`.
pub open spec fn targets(
    gws: Seq<(FunctionCallActionIndex, GasWeight)>,
    i: int,
    k: int,
) -> bool {
    exists|j: int|
        0 <= j < gws.len() && ((#[trigger] gws[j]).0.receipt_index as int) == i && (
        gws[j].0.action_index as int) == k
}

/// The weight total is never negative.
pub proof fn lemma_weights_sum_nonneg(gws: Seq<(FunctionCallActionIndex, GasWeight)>)
    ensures
        weights_sum(gws) >= 0,
    decreases gws.len(),
{
    if gws.len() > 0 {
        lemma_weights_sum_nonneg(gws.drop_last());
    }
}

/// Every single weight is bounded by the total.
pub proof fn lemma_weight_le_sum(gws: Seq<(FunctionCallActionIndex, GasWeight)>, j: int)
    requires
        0 <= j < gws.len(),
    ensures
        gws[j].1.0 <= weights_sum(gws),
    decreases gws.len(),
{
    if j == gws.len() - 1 {
        lemma_weights_sum_nonneg(gws.drop_last());
    } else {
        lemma_weight_le_sum(gws.drop_last(), j);
        assert(gws.drop_last()[j] == gws[j]);
    }
}

/// A prefix of the registry weighs no more than the whole.
pub proof fn lemma_take_sum_le(gws: Seq<(FunctionCallActionIndex, GasWeight)>, j: int)
    requires
        0 <= j <= gws.len(),
    ensures
        weights_sum(gws.take(j)) <= weights_sum(gws),
    decreases gws.len() - j,
{
    if j == gws.len() {
        assert(gws.take(j) =~= gws);
    } else {
        assert(gws.take(j + 1).drop_last() =~= gws.take(j));
        assert(gws.take(j + 1).last() == gws[j]);
        lemma_take_sum_le(gws, j + 1);
    }
}

/// The orchestrating component.  One manager is instantiated per contract
/// execution, mutated only by that execution's host calls, and drained once
/// at the end.
#[derive(Debug, PartialEq, Eq)]
pub struct ReceiptManager {
    /// The pending-receipt store.
    pub action_receipts: ActionReceipts,
    /// Weighted leftover-gas requests, in recording order: which
    /// function-call action asked, and with what weight.
    pub gas_weights: Vec<(FunctionCallActionIndex, GasWeight)>,
}

impl Default for ReceiptManager {
    /// Same as [`ReceiptManager::new`].
    fn default() -> (m: Self)
        ensures
            m.action_receipts@ =~= Seq::<(Seq<char>, ReceiptMetadataView)>::empty(),
            m.gas_weights@ =~= Seq::<(FunctionCallActionIndex, GasWeight)>::empty(),
            m.wf(),
    {
        ReceiptManager::new()
    }
}

impl ReceiptManager {
    /// The append discipline's invariant: every recorded gas weight is
    /// positive and points at a distinct existing function-call action.
    pub open spec fn wf(&self) -> bool {
        &&& forall|j: int|
            0 <= j < self.gas_weights@.len() ==> gas_weight_target_ok(
                self.action_receipts@,
                (#[trigger] self.gas_weights@[j]).0,
            )
        &&& forall|j: int|
            0 <= j < self.gas_weights@.len() ==> (#[trigger] self.gas_weights@[j]).1.0 > 0
        &&& forall|j1: int, j2: int|
            0 <= j1 < j2 < self.gas_weights@.len() ==> (#[trigger] self.gas_weights@[j1]).0 != (
            #[trigger] self.gas_weights@[j2]).0
    }

    /// A fresh manager with no pending receipts and no gas-weight requests.
    pub fn new() -> (m: ReceiptManager)
        ensures
            m.action_receipts@ =~= Seq::<(Seq<char>, ReceiptMetadataView)>::empty(),
            m.gas_weights@ =~= Seq::<(FunctionCallActionIndex, GasWeight)>::empty(),
            m.wf(),
    {
        ReceiptManager { action_receipts: ActionReceipts::new(), gas_weights: Vec::new() }
    }

    /// The receiver account of a pending receipt, or nothing when the index
    /// is not a known handle.
    pub fn get_receipt_receiver(&self, receipt_index: u64) -> (r: Option<&String>)
        ensures
            match r {
                Some(account) => (receipt_index as int) < self.action_receipts@.len()
                    && account@ == self.action_receipts@[receipt_index as int].0,
                None => (receipt_index as int) >= self.action_receipts@.len(),
            },
    {
        if receipt_index < self.action_receipts.0.len() as u64 {
            Some(&self.action_receipts.0[receipt_index as usize].0)
        } else {
            None
        }
    }

    /// Creates a pending receipt addressed to `receiver_id` that will only
    /// execute after the receipts named by `receipt_indices` complete.  For
    /// each dependency, in input order, a fresh identifier is minted through
    /// `ext`, registered as an output receiver of the dependency, and added
    /// to the new receipt's input dependencies.  Returns the new receipt's
    /// index: the store's length before the call.
    ///
    /// Every dependency index is validated before any state is touched: an
    /// out-of-range index fails with that index's error and changes nothing,
    /// neither the store nor the identifier source.
    pub fn create_receipt<E: DataIdSource>(
        &mut self,
        ext: &mut E,
        receipt_indices: Vec<u64>,
        receiver_id: String,
    ) -> (r: Result<u64, HostError>)
        ensures
            r is Ok <==> all_indices_valid(
                receipt_indices@,
                old(self).action_receipts@.len() as int,
            ),
            r is Err ==> *final(self) == *old(self) && *final(ext) == *old(ext),
            r is Err ==> (exists|j: int|
                0 <= j < receipt_indices@.len()
                    && ((#[trigger] receipt_indices@[j]) as int)
                    >= old(self).action_receipts@.len()
                    && r->Err_0 == (HostError::InvalidReceiptIndex {
                    receipt_index: receipt_indices@[j],
                })
                    && (forall|k: int|
                    0 <= k < j ==> ((#[trigger] receipt_indices@[k]) as int) < old(
                        self,
                    ).action_receipts@.len())),
            r is Ok ==> r->Ok_0 == old(self).action_receipts@.len() as u64,
            r is Ok ==> ({
                let ids = final(self).action_receipts@.last().1.input_data_ids;
                &&& ids.len() == receipt_indices@.len()
                &&& final(self).action_receipts@ == store_with_links(
                    old(self).action_receipts@,
                    receipt_indices@,
                    ids,
                    receiver_id@,
                ).push(
                    (
                        receiver_id@,
                        ReceiptMetadataView {
                            output_data_receivers: Seq::<DataReceiverView>::empty(),
                            input_data_ids: ids,
                            actions: Seq::<ActionView>::empty(),
                        },
                    ),
                )
            }),
            final(self).gas_weights@ == old(self).gas_weights@,
            old(self).wf() ==> final(self).wf(),
    {
        let ghost rs0 = self.action_receipts@;
        let ghost gw0 = self.gas_weights@;
        let n = self.action_receipts.0.len();
        proof {
            assert(rs0.len() == self.action_receipts.0@.len());
        }
        let mut i: usize = 0;
        while i < receipt_indices.len()
            invariant
                i <= receipt_indices@.len(),
                n as int == rs0.len(),
                rs0 == self.action_receipts@,
                *self == *old(self),
                *ext == *old(ext),
                forall|k: int|
                    0 <= k < i ==> ((#[trigger] receipt_indices@[k]) as int) < n as int,
            decreases receipt_indices@.len() - i,
        {
            if receipt_indices[i] >= n as u64 {
                proof {
                    let j = i as int;
                    assert(0 <= j < receipt_indices@.len()
                        && ((receipt_indices@[j]) as int) >= rs0.len()
                        && (forall|k: int|
                        0 <= k < j ==> ((#[trigger] receipt_indices@[k]) as int) < rs0.len()));
                }
                return Err(HostError::InvalidReceiptIndex { receipt_index: receipt_indices[i] });
            }
            i = i + 1;
        }
        let mut input_data_ids: Vec<DataId> = Vec::new();
        let mut j: usize = 0;
        while j < receipt_indices.len()
            invariant
                j <= receipt_indices@.len(),
                n as int == rs0.len(),
                all_indices_valid(receipt_indices@, n as int),
                input_data_ids@.len() == j,
                self.action_receipts@ == store_with_links(
                    rs0,
                    receipt_indices@.take(j as int),
                    input_data_ids@,
                    receiver_id@,
                ),
                self.action_receipts@.len() == n as int,
                self.action_receipts.0@.len() == n as int,
                self.gas_weights@ == gw0,
            decreases receipt_indices@.len() - j,
        {
            let data_id = ext.generate_data_id();
            let dep_u64 = receipt_indices[j];
            let dep = dep_u64 as usize;
            let ghost pre_rs = self.action_receipts@;
            let ghost pre_vec = self.action_receipts.0@;
            let ghost pre_ids = input_data_ids@;
            proof {
                assert(pre_rs[dep as int] == (pre_vec[dep as int].0@, pre_vec[dep as int].1@));
            }
            let entry = &mut self.action_receipts.0[dep];
            entry.1.output_data_receivers.push(
                DataReceiver { data_id, receiver_id: receiver_id.clone() },
            );
            input_data_ids.push(data_id);
            proof {
                assert(self.action_receipts.0@ == pre_vec.update(
                    dep as int,
                    self.action_receipts.0@[dep as int],
                ));
                assert(self.action_receipts@ =~~= store_with_link(
                    pre_rs,
                    dep as int,
                    data_id,
                    receiver_id@,
                ));
                lemma_links_snoc(
                    rs0,
                    receipt_indices@.take(j as int),
                    pre_ids,
                    dep_u64,
                    data_id,
                    receiver_id@,
                );
                assert(receipt_indices@.take(j as int + 1) =~= receipt_indices@.take(
                    j as int,
                ).push(dep_u64));
                assert(input_data_ids@ =~= pre_ids.push(data_id));
            }
            j = j + 1;
        }
        proof {
            assert(receipt_indices@.take(receipt_indices@.len() as int) =~= receipt_indices@);
        }
        let ghost linked = self.action_receipts@;
        let new_receipt_index = n as u64;
        self.action_receipts.0.push(
            (
                receiver_id,
                ReceiptMetadata {
                    output_data_receivers: Vec::new(),
                    input_data_ids,
                    actions: Vec::new(),
                },
            ),
        );
        proof {
            let ids = self.action_receipts@.last().1.input_data_ids;
            assert(self.action_receipts@ =~~= linked.push(
                (
                    self.action_receipts@.last().0,
                    ReceiptMetadataView {
                        output_data_receivers: Seq::<DataReceiverView>::empty(),
                        input_data_ids: ids,
                        actions: Seq::<ActionView>::empty(),
                    },
                ),
            ));
            lemma_links_preserve(rs0, receipt_indices@, ids, receiver_id@);
            if old(self).wf() {
                assert forall|jj: int|
                    0 <= jj < self.gas_weights@.len() implies gas_weight_target_ok(
                    self.action_receipts@,
                    (#[trigger] self.gas_weights@[jj]).0,
                ) by {
                    let t = old(self).gas_weights@[jj].0;
                    assert(gas_weight_target_ok(rs0, t));
                    assert(linked[t.receipt_index as int].1.actions == rs0[
                        t.receipt_index as int].1.actions);
                    assert(self.action_receipts@[t.receipt_index as int] == linked[
                        t.receipt_index as int]);
                }
            }
        }
        Ok(new_receipt_index)
    }

    /// Appends an action to an existing pending receipt and returns the
    /// zero-based position the action was inserted at.  The caller must hold
    /// a valid handle: an index that does not name a pending receipt is an
    /// invariant breach of the orchestrating engine, not a recoverable
    /// failure.
    pub fn append_action(&mut self, receipt_index: u64, action: Action) -> (pos: usize)
        requires
            (receipt_index as int) < old(self).action_receipts@.len(),
        ensures
            pos == old(self).action_receipts@[receipt_index as int].1.actions.len(),
            final(self).action_receipts@ == store_with_appended(
                old(self).action_receipts@,
                receipt_index as int,
                action@,
            ),
            final(self).gas_weights@ == old(self).gas_weights@,
            old(self).wf() ==> final(self).wf(),
    {
        let ghost rs0 = self.action_receipts@;
        let ghost vec0 = self.action_receipts.0@;
        proof {
            assert(rs0.len() == vec0.len());
            assert(rs0[receipt_index as int] == (
                vec0[receipt_index as int].0@,
                vec0[receipt_index as int].1@,
            ));
        }
        let n = self.action_receipts.0.len();
        proof {
            assert((receipt_index as int) < (n as int));
        }
        let idx = receipt_index as usize;
        let entry = &mut self.action_receipts.0[idx];
        let pos = entry.1.actions.len();
        entry.1.actions.push(action);
        proof {
            assert(self.action_receipts.0@ == vec0.update(idx as int, self.action_receipts.0@[idx as int]));
            assert(self.action_receipts@ =~~= store_with_appended(
                old(self).action_receipts@,
                receipt_index as int,
                action@,
            ));
            if old(self).wf() {
                assert forall|j: int|
                    0 <= j < self.gas_weights@.len() implies gas_weight_target_ok(
                    self.action_receipts@,
                    (#[trigger] self.gas_weights@[j]).0,
                ) by {
                    let t = old(self).gas_weights@[j].0;
                    assert(gas_weight_target_ok(old(self).action_receipts@, t));
                }
            }
        }
        pos
    }

    /// Attaches a create-account action to an existing receipt.
    pub fn append_action_create_account(&mut self, receipt_index: u64) -> (r: Result<
        (),
        HostError,
    >)
        requires
            (receipt_index as int) < old(self).action_receipts@.len(),
        ensures
            r is Ok,
            final(self).action_receipts@ == store_with_appended(
                old(self).action_receipts@,
                receipt_index as int,
                ActionView::CreateAccount,
            ),
            final(self).gas_weights@ == old(self).gas_weights@,
            old(self).wf() ==> final(self).wf(),
    {
        self.append_action(receipt_index, Action::CreateAccount);
        Ok(())
    }

    /// Attaches a deploy-contract action carrying `code` to an existing
    /// receipt.
    pub fn append_action_deploy_contract(&mut self, receipt_index: u64, code: Vec<u8>) -> (r:
        Result<(), HostError>)
        requires
            (receipt_index as int) < old(self).action_receipts@.len(),
        ensures
            r is Ok,
            final(self).action_receipts@ == store_with_appended(
                old(self).action_receipts@,
                receipt_index as int,
                ActionView::DeployContract { code: code@ },
            ),
            final(self).gas_weights@ == old(self).gas_weights@,
            old(self).wf() ==> final(self).wf(),
    {
        self.append_action(receipt_index, Action::DeployContract { code });
        Ok(())
    }

    /// Attaches a transfer action to an existing receipt.
    pub fn append_action_transfer(&mut self, receipt_index: u64, deposit: Balance) -> (r: Result<
        (),
        HostError,
    >)
        requires
            (receipt_index as int) < old(self).action_receipts@.len(),
        ensures
            r is Ok,
            final(self).action_receipts@ == store_with_appended(
                old(self).action_receipts@,
                receipt_index as int,
                ActionView::Transfer { deposit },
            ),
            final(self).gas_weights@ == old(self).gas_weights@,
            old(self).wf() ==> final(self).wf(),
    {
        self.append_action(receipt_index, Action::Transfer { deposit });
        Ok(())
    }

    /// Attaches a function-call action to an existing receipt.  Fails, and
    /// leaves everything unchanged, exactly when the method-name bytes are
    /// not valid text.
    pub fn append_action_function_call(
        &mut self,
        receipt_index: u64,
        method_name: Vec<u8>,
        args: Vec<u8>,
        attached_deposit: Balance,
        prepaid_gas: Gas,
    ) -> (r: Result<(), HostError>)
        requires
            (receipt_index as int) < old(self).action_receipts@.len(),
        ensures
            r is Ok <==> valid_utf8(method_name@),
            r is Err ==> r->Err_0 == HostError::InvalidMethodName && *final(self) == *old(self),
            r is Ok ==> final(self).action_receipts@ == store_with_appended(
                old(self).action_receipts@,
                receipt_index as int,
                ActionView::FunctionCall {
                    method_name: decode_utf8(method_name@),
                    args: args@,
                    gas: prepaid_gas,
                    deposit: attached_deposit,
                },
            ),
            final(self).gas_weights@ == old(self).gas_weights@,
            old(self).wf() ==> final(self).wf(),
    {
        match crate::actions::string_from_utf8(method_name) {
            Some(name) => {
                self.append_action(
                    receipt_index,
                    Action::FunctionCall {
                        method_name: name,
                        args,
                        gas: prepaid_gas,
                        deposit: attached_deposit,
                    },
                );
                Ok(())
            },
            None => Err(HostError::InvalidMethodName),
        }
    }

    /// Attaches a function-call action to an existing receipt and, when the
    /// given weight is positive, additionally records that the action wants
    /// that relative share of the execution's leftover gas.  Fails, and
    /// leaves everything unchanged, exactly when the method-name bytes are
    /// not valid text.
    pub fn append_action_function_call_weight(
        &mut self,
        receipt_index: u64,
        method_name: Vec<u8>,
        args: Vec<u8>,
        attached_deposit: Balance,
        prepaid_gas: Gas,
        gas_weight: GasWeight,
    ) -> (r: Result<(), HostError>)
        requires
            (receipt_index as int) < old(self).action_receipts@.len(),
        ensures
            r is Ok <==> valid_utf8(method_name@),
            r is Err ==> r->Err_0 == HostError::InvalidMethodName && *final(self) == *old(self),
            r is Ok ==> final(self).action_receipts@ == store_with_appended(
                old(self).action_receipts@,
                receipt_index as int,
                ActionView::FunctionCall {
                    method_name: decode_utf8(method_name@),
                    args: args@,
                    gas: prepaid_gas,
                    deposit: attached_deposit,
                },
            ),
            r is Ok && gas_weight.0 > 0 ==> final(self).gas_weights@ == old(self).gas_weights@.push(
                (
                    FunctionCallActionIndex {
                        receipt_index: receipt_index as usize,
                        action_index: old(self).action_receipts@[
                            receipt_index as int].1.actions.len() as usize,
                    },
                    gas_weight,
                ),
            ),
            r is Ok && gas_weight.0 == 0 ==> final(self).gas_weights@ == old(self).gas_weights@,
            r is Err ==> final(self).gas_weights@ == old(self).gas_weights@,
            old(self).wf() ==> final(self).wf(),
    {
        let n = self.action_receipts.0.len();
        proof {
            assert(self.action_receipts@.len() == self.action_receipts.0@.len());
            assert((receipt_index as int) < (n as int));
        }
        match crate::actions::string_from_utf8(method_name) {
            Some(name) => {
                let pos = self.append_action(
                    receipt_index,
                    Action::FunctionCall {
                        method_name: name,
                        args,
                        gas: prepaid_gas,
                        deposit: attached_deposit,
                    },
                );
                if gas_weight.0 > 0 {
                    let ghost mid = *self;
                    self.gas_weights.push(
                        (
                            FunctionCallActionIndex {
                                receipt_index: receipt_index as usize,
                                action_index: pos,
                            },
                            gas_weight,
                        ),
                    );
                    proof {
                        if old(self).wf() {
                            let rs = self.action_receipts@;
                            let gws = self.gas_weights@;
                            let added = FunctionCallActionIndex {
                                receipt_index: receipt_index as usize,
                                action_index: pos,
                            };
                            assert(mid.wf());
                            assert(rs[receipt_index as int].1.actions[pos as int] is FunctionCall);
                            assert forall|j: int|
                                0 <= j < gws.len() implies gas_weight_target_ok(
                                rs,
                                (#[trigger] gws[j]).0,
                            ) by {
                                if j < gws.len() - 1 {
                                    assert(gas_weight_target_ok(rs, mid.gas_weights@[j].0));
                                } else {
                                    assert(gws[j].0 == added);
                                }
                            }
                            assert forall|j1: int, j2: int|
                                0 <= j1 < j2 < gws.len() implies (#[trigger] gws[j1]).0 != (
                                #[trigger] gws[j2]).0 by {
                                if j2 == gws.len() - 1 {
                                    if gws[j1].0.receipt_index == added.receipt_index {
                                        assert(gas_weight_target_ok(
                                            old(self).action_receipts@,
                                            old(self).gas_weights@[j1].0,
                                        ));
                                    }
                                }
                            }
                        }
                    }
                }
                Ok(())
            },
            None => Err(HostError::InvalidMethodName),
        }
    }

    /// Attaches a stake action to an existing receipt.  Fails, and leaves
    /// everything unchanged, exactly when the validator key bytes are not a
    /// recognized key encoding.
    pub fn append_action_stake(
        &mut self,
        receipt_index: u64,
        stake: Balance,
        public_key: Vec<u8>,
    ) -> (r: Result<(), HostError>)
        requires
            (receipt_index as int) < old(self).action_receipts@.len(),
        ensures
            r is Ok <==> is_valid_key_encoding(public_key@),
            r is Err ==> r->Err_0 == HostError::InvalidPublicKey && *final(self) == *old(self),
            r is Ok ==> final(self).action_receipts@ == store_with_appended(
                old(self).action_receipts@,
                receipt_index as int,
                ActionView::Stake { stake, public_key: public_key@ },
            ),
            final(self).gas_weights@ == old(self).gas_weights@,
            old(self).wf() ==> final(self).wf(),
    {
        match PublicKey::from_bytes(public_key) {
            Ok(key) => {
                self.append_action(receipt_index, Action::Stake { stake, public_key: key });
                Ok(())
            },
            Err(e) => Err(e),
        }
    }

    /// Attaches an add-key action granting full access to an existing
    /// receipt.  Fails, and leaves everything unchanged, exactly when the
    /// key bytes are not a recognized key encoding.
    pub fn append_action_add_key_with_full_access(
        &mut self,
        receipt_index: u64,
        public_key: Vec<u8>,
        nonce: u64,
    ) -> (r: Result<(), HostError>)
        requires
            (receipt_index as int) < old(self).action_receipts@.len(),
        ensures
            r is Ok <==> is_valid_key_encoding(public_key@),
            r is Err ==> r->Err_0 == HostError::InvalidPublicKey && *final(self) == *old(self),
            r is Ok ==> final(self).action_receipts@ == store_with_appended(
                old(self).action_receipts@,
                receipt_index as int,
                ActionView::AddKey {
                    public_key: public_key@,
                    access_key: AccessKeyView {
                        nonce,
                        permission: AccessKeyPermissionView::FullAccess,
                    },
                },
            ),
            final(self).gas_weights@ == old(self).gas_weights@,
            old(self).wf() ==> final(self).wf(),
    {
        match PublicKey::from_bytes(public_key) {
            Ok(key) => {
                self.append_action(
                    receipt_index,
                    Action::AddKey {
                        public_key: key,
                        access_key: AccessKey {
                            nonce,
                            permission: AccessKeyPermission::FullAccess,
                        },
                    },
                );
                Ok(())
            },
            Err(e) => Err(e),
        }
    }

    /// Attaches an add-key action whose key is scoped to function calls:
    /// the key may spend up to `allowance` (unlimited when absent), may only
    /// call the named receiver contract, and only the listed methods (an
    /// empty list allows any method).  The key bytes are validated first,
    /// then each method name; the first failure wins and leaves everything
    /// unchanged.
    pub fn append_action_add_key_with_function_call(
        &mut self,
        receipt_index: u64,
        public_key: Vec<u8>,
        nonce: u64,
        allowance: Option<Balance>,
        receiver_id: String,
        method_names: Vec<Vec<u8>>,
    ) -> (r: Result<(), HostError>)
        requires
            (receipt_index as int) < old(self).action_receipts@.len(),
        ensures
            r is Ok <==> is_valid_key_encoding(public_key@) && all_method_names_valid(
                method_names@,
            ),
            !is_valid_key_encoding(public_key@) ==> r == Err::<(), HostError>(
                HostError::InvalidPublicKey,
            ),
            is_valid_key_encoding(public_key@) && !all_method_names_valid(method_names@) ==> r
                == Err::<(), HostError>(HostError::InvalidMethodName),
            r is Err ==> *final(self) == *old(self),
            r is Ok ==> final(self).action_receipts@ == store_with_appended(
                old(self).action_receipts@,
                receipt_index as int,
                ActionView::AddKey {
                    public_key: public_key@,
                    access_key: AccessKeyView {
                        nonce,
                        permission: AccessKeyPermissionView::FunctionCall(
                            FunctionCallPermissionView {
                                allowance,
                                receiver_id: receiver_id@,
                                method_names: decoded_method_names(method_names@),
                            },
                        ),
                    },
                },
            ),
            final(self).gas_weights@ == old(self).gas_weights@,
            old(self).wf() ==> final(self).wf(),
    {
        let key = match PublicKey::from_bytes(public_key) {
            Ok(k) => k,
            Err(e) => {
                proof {
                    assert(!is_valid_key_encoding(public_key@));
                    assert(e == HostError::InvalidPublicKey);
                }
                return Err(e);
            },
        };
        proof {
            assert(is_valid_key_encoding(public_key@));
        }
        let ghost name_bytes = method_names@;
        let mut remaining = method_names;
        let mut names: Vec<String> = Vec::new();
        while remaining.len() > 0
            invariant
                name_bytes == method_names@,
                is_valid_key_encoding(public_key@),
                key@ == public_key@,
                names@.len() + remaining@.len() == name_bytes.len(),
                remaining@ =~= name_bytes.skip(names@.len() as int),
                forall|j: int|
                    0 <= j < names@.len() ==> valid_utf8((#[trigger] name_bytes[j])@),
                names@.map_values(|m: String| m@) =~~= decoded_method_names(
                    name_bytes.take(names@.len() as int),
                ),
                *self == *old(self),
            decreases remaining@.len(),
        {
            let ghost done = names@.len() as int;
            let next = remaining.remove(0);
            proof {
                assert(next@ == name_bytes[done]@);
            }
            match crate::actions::string_from_utf8(next) {
                Some(name) => {
                    let ghost names0 = names@;
                    names.push(name);
                    proof {
                        assert forall|i: int| 0 <= i < remaining@.len() implies remaining@[i]
                            == name_bytes[done + 1 + i] by {
                            assert(remaining@[i] == name_bytes.skip(done)[i + 1]);
                        }
                        assert(remaining@ =~= name_bytes.skip(names@.len() as int));
                        assert forall|j: int| 0 <= j < names@.len() implies names@.map_values(
                            |m: String| m@,
                        )[j] == decoded_method_names(name_bytes.take(names@.len() as int))[j] by {
                            assert(names@.map_values(|m: String| m@)[j] == names@[j]@);
                            assert(name_bytes.take(names@.len() as int)[j] == name_bytes[j]);
                            assert(decoded_method_names(name_bytes.take(names@.len() as int))[j]
                                == decode_utf8(name_bytes[j]@));
                            if j < done {
                                assert(names@[j] == names0[j]);
                                assert(names0.map_values(|m: String| m@)[j] == names0[j]@);
                                assert(name_bytes.take(done)[j] == name_bytes[j]);
                                assert(decoded_method_names(name_bytes.take(done))[j]
                                    == decode_utf8(name_bytes[j]@));
                            } else {
                                assert(names@[j] == name);
                                assert(name@ == decode_utf8(name_bytes[done]@));
                            }
                        }
                        assert(names@.map_values(|m: String| m@) =~~= decoded_method_names(
                            name_bytes.take(names@.len() as int),
                        ));
                    }
                },
                None => {
                    proof {
                        assert(!valid_utf8(name_bytes[done]@));
                        assert(!all_method_names_valid(name_bytes));
                    }
                    return Err(HostError::InvalidMethodName);
                },
            }
        }
        proof {
            assert(name_bytes.take(names@.len() as int) =~= name_bytes);
            assert(all_method_names_valid(name_bytes));
        }
        self.append_action(
            receipt_index,
            Action::AddKey {
                public_key: key,
                access_key: AccessKey {
                    nonce,
                    permission: AccessKeyPermission::FunctionCall(
                        FunctionCallPermission { allowance, receiver_id, method_names: names },
                    ),
                },
            },
        );
        Ok(())
    }

    /// Attaches a delete-key action to an existing receipt.  Fails, and
    /// leaves everything unchanged, exactly when the key bytes are not a
    /// recognized key encoding.
    pub fn append_action_delete_key(&mut self, receipt_index: u64, public_key: Vec<u8>) -> (r:
        Result<(), HostError>)
        requires
            (receipt_index as int) < old(self).action_receipts@.len(),
        ensures
            r is Ok <==> is_valid_key_encoding(public_key@),
            r is Err ==> r->Err_0 == HostError::InvalidPublicKey && *final(self) == *old(self),
            r is Ok ==> final(self).action_receipts@ == store_with_appended(
                old(self).action_receipts@,
                receipt_index as int,
                ActionView::DeleteKey { public_key: public_key@ },
            ),
            final(self).gas_weights@ == old(self).gas_weights@,
            old(self).wf() ==> final(self).wf(),
    {
        match PublicKey::from_bytes(public_key) {
            Ok(key) => {
                self.append_action(receipt_index, Action::DeleteKey { public_key: key });
                Ok(())
            },
            Err(e) => Err(e),
        }
    }

    /// Distributes `gas` among the function-call actions that recorded a
    /// gas weight.  Each recorded entry, in recording order, gains the floor
    /// share per weight unit times its weight; the remainder that floor
    /// division left over goes entirely to the last recorded entry, so the
    /// whole amount is always disbursed.  With no recorded weights nothing
    /// changes and the outcome says so.  The registry is cleared: a
    /// distribution pass happens at most once.
    ///
    /// The manager must be well formed (the append discipline guarantees
    /// it), and each weighted action's gas plus the whole distributed amount
    /// must fit the gas type; the engine's gas accounting guarantees that a
    /// call never attaches more than the prepaid total.
    pub fn distribute_unused_gas(&mut self, gas: Gas) -> (r: GasDistribution)
        requires
            old(self).wf(),
            forall|j: int|
                0 <= j < old(self).gas_weights@.len() ==> action_gas(
                    old(self).action_receipts@,
                    (#[trigger] old(self).gas_weights@[j]).0,
                ) + gas <= u64::MAX,
        ensures
            weights_sum(old(self).gas_weights@) == 0 ==> r == GasDistribution::NoRatios
                && *final(self) == *old(self),
            weights_sum(old(self).gas_weights@) > 0 ==> ({
                let gws = old(self).gas_weights@;
                let rs0 = old(self).action_receipts@;
                let rs1 = final(self).action_receipts@;
                &&& r == GasDistribution::All
                &&& final(self).gas_weights@.len() == 0
                &&& rs1.len() == rs0.len()
                &&& forall|i: int|
                    0 <= i < rs0.len() ==> (#[trigger] rs1[i]).0 == rs0[i].0
                        && rs1[i].1.output_data_receivers == rs0[i].1.output_data_receivers
                        && rs1[i].1.input_data_ids == rs0[i].1.input_data_ids
                        && rs1[i].1.actions.len() == rs0[i].1.actions.len()
                &&& forall|i: int, k: int|
                    0 <= i < rs0.len() && 0 <= k < rs0[i].1.actions.len() && !targets(gws, i, k)
                        ==> (#[trigger] rs1[i].1.actions[k]) == rs0[i].1.actions[k]
                &&& forall|j: int|
                    0 <= j < gws.len() ==> ({
                        let idx = (#[trigger] gws[j]).0;
                        rs1[idx.receipt_index as int].1.actions[idx.action_index as int]
                            == gas_bumped(
                            rs0[idx.receipt_index as int].1.actions[idx.action_index as int],
                            assigned_gas(gas, gws, j),
                        )
                    })
            }),
            final(self).wf(),
    {
        let ghost gws = self.gas_weights@;
        let ghost rs0 = self.action_receipts@;
        proof {
            lemma_weights_sum_nonneg(gws);
        }
        let mut gas_weight_sum: u128 = 0;
        let mut j: usize = 0;
        while j < self.gas_weights.len()
            invariant
                *self == *old(self),
                gws == self.gas_weights@,
                j <= gws.len(),
                gas_weight_sum as int == weights_sum(gws.take(j as int)),
                gas_weight_sum as int <= j as int * 0xffff_ffff_ffff_ffffu64 as int,
            decreases gws.len() - j,
        {
            let w = self.gas_weights[j].1.0;
            proof {
                assert(gws.take(j as int + 1).drop_last() =~= gws.take(j as int));
                assert(gws.take(j as int + 1).last() == gws[j as int]);
            }
            gas_weight_sum = gas_weight_sum + w as u128;
            j = j + 1;
        }
        proof {
            assert(gws.take(gws.len() as int) =~= gws);
        }
        if gas_weight_sum == 0 {
            return GasDistribution::NoRatios;
        }
        let gas_per_weight: u64 = ((gas as u128) / gas_weight_sum) as u64;
        proof {
            vstd::arithmetic::div_mod::lemma_fundamental_div_mod(
                gas as int,
                weights_sum(gws),
            );
            vstd::arithmetic::div_mod::lemma_mod_bound(gas as int, weights_sum(gws));
            vstd::arithmetic::div_mod::lemma_div_pos_is_pos(gas as int, weights_sum(gws));
            vstd::arithmetic::mul::lemma_mul_inequality(
                1,
                weights_sum(gws),
                gas as int / weights_sum(gws),
            );
            assert(weights_sum(gws) * (gas as int / weights_sum(gws)) <= gas as int);
            assert(gas_per_weight as int == gas as int / weights_sum(gws));
        }
        let ghost per = gas_per_weight as int;
        let mut distributed: u64 = 0;
        let mut k: usize = 0;
        while k < self.gas_weights.len()
            invariant
                gws == self.gas_weights@,
                gws == old(self).gas_weights@,
                rs0 == old(self).action_receipts@,
                old(self).wf(),
                forall|jj: int|
                    0 <= jj < gws.len() ==> action_gas(rs0, (#[trigger] gws[jj]).0) + gas
                        <= u64::MAX,
                k <= gws.len(),
                weights_sum(gws) > 0,
                per == gas as int / weights_sum(gws),
                per >= 0,
                per * weights_sum(gws) <= gas as int,
                gas_per_weight as int == per,
                distributed as int == per * weights_sum(gws.take(k as int)),
                distributed <= gas,
                self.action_receipts@.len() == rs0.len(),
                self.action_receipts.0@.len() == rs0.len(),
                forall|i: int|
                    0 <= i < rs0.len() ==> (#[trigger] self.action_receipts@[i]).0 == rs0[i].0
                        && self.action_receipts@[i].1.output_data_receivers == rs0[
                        i].1.output_data_receivers && self.action_receipts@[i].1.input_data_ids
                        == rs0[i].1.input_data_ids && self.action_receipts@[i].1.actions.len()
                        == rs0[i].1.actions.len(),
                forall|i: int, kk: int|
                    0 <= i < rs0.len() && 0 <= kk < rs0[i].1.actions.len() && !targets(gws, i, kk)
                        ==> (#[trigger] self.action_receipts@[i].1.actions[kk]) == rs0[
                        i].1.actions[kk],
                forall|jj: int|
                    0 <= jj < k ==> ({
                        let idx = (#[trigger] gws[jj]).0;
                        self.action_receipts@[idx.receipt_index as int].1.actions[
                            idx.action_index as int] == gas_bumped(
                            rs0[idx.receipt_index as int].1.actions[idx.action_index as int],
                            per * (gws[jj].1.0 as int),
                        )
                    }),
                forall|jj: int|
                    k <= jj < gws.len() ==> ({
                        let idx = (#[trigger] gws[jj]).0;
                        self.action_receipts@[idx.receipt_index as int].1.actions[
                            idx.action_index as int] == rs0[idx.receipt_index as int].1.actions[
                            idx.action_index as int]
                    }),
            decreases gws.len() - k,
        {
            let pair = self.gas_weights[k];
            let idx = pair.0;
            let w = pair.1.0;
            proof {
                assert(gas_weight_target_ok(rs0, idx));
                lemma_weight_le_sum(gws, k as int);
                vstd::arithmetic::mul::lemma_mul_inequality(w as int, weights_sum(gws), per);
                assert((w as int) * per <= weights_sum(gws) * per) by {
                    assert((w as int) * per == per * (w as int)) by (nonlinear_arith);
                    assert(weights_sum(gws) * per == per * weights_sum(gws)) by (nonlinear_arith);
                }
                assert(per * (w as int) <= gas as int) by {
                    assert(per * (w as int) == (w as int) * per) by (nonlinear_arith);
                    assert(per * weights_sum(gws) == weights_sum(gws) * per) by (nonlinear_arith);
                }
            }
            let assigned: u64 = gas_per_weight * w;
            let ghost pre_rs = self.action_receipts@;
            let ghost pre_vec = self.action_receipts.0@;
            proof {
                assert(pre_rs[idx.receipt_index as int] == (
                    pre_vec[idx.receipt_index as int].0@,
                    pre_vec[idx.receipt_index as int].1@,
                ));
            }
            let entry = &mut self.action_receipts.0[idx.receipt_index];
            let act = &mut entry.1.actions[idx.action_index];
            match act {
                Action::FunctionCall { gas: gas_field, .. } => {
                    *gas_field = *gas_field + assigned;
                },
                _ => {
                    proof {
                        assert(false);
                    }
                    unreached()
                },
            }
            proof {
                assert(self.action_receipts.0@ == pre_vec.update(
                    idx.receipt_index as int,
                    self.action_receipts.0@[idx.receipt_index as int],
                ));
                assert(self.action_receipts@ =~~= store_with_bumped(
                    pre_rs,
                    idx,
                    assigned as int,
                ));
                assert(gws.take(k as int + 1).drop_last() =~= gws.take(k as int));
                assert(gws.take(k as int + 1).last() == gws[k as int]);
                vstd::arithmetic::mul::lemma_mul_is_distributive_add(
                    per,
                    weights_sum(gws.take(k as int)),
                    w as int,
                );
                lemma_take_sum_le(gws, k as int + 1);
                vstd::arithmetic::mul::lemma_mul_inequality(
                    weights_sum(gws.take(k as int + 1)),
                    weights_sum(gws),
                    per,
                );
                assert(per * weights_sum(gws.take(k as int + 1)) <= per * weights_sum(gws)) by {
                    assert(weights_sum(gws.take(k as int + 1)) * per == per * weights_sum(
                        gws.take(k as int + 1),
                    )) by (nonlinear_arith);
                    assert(weights_sum(gws) * per == per * weights_sum(gws)) by (nonlinear_arith);
                }
                lemma_weights_sum_nonneg(gws.take(k as int));
                vstd::arithmetic::mul::lemma_mul_nonnegative(
                    per,
                    weights_sum(gws.take(k as int)),
                );
            }
            distributed = distributed + assigned;
            k = k + 1;
        }
        proof {
            assert(gws.take(gws.len() as int) =~= gws);
        }
        let remainder: u64 = gas - distributed;
        let last_idx = self.gas_weights[self.gas_weights.len() - 1].0;
        proof {
            assert(gas_weight_target_ok(rs0, last_idx));
            lemma_weight_le_sum(gws, gws.len() - 1);
            vstd::arithmetic::mul::lemma_mul_inequality(
                gws.last().1.0 as int,
                weights_sum(gws),
                per,
            );
            assert(per * (gws.last().1.0 as int) <= per * weights_sum(gws)) by {
                assert((gws.last().1.0 as int) * per == per * (gws.last().1.0 as int))
                    by (nonlinear_arith);
                assert(weights_sum(gws) * per == per * weights_sum(gws)) by (nonlinear_arith);
            }
        }
        let ghost pre_rs = self.action_receipts@;
        let ghost pre_vec = self.action_receipts.0@;
        proof {
            assert(pre_rs[last_idx.receipt_index as int] == (
                pre_vec[last_idx.receipt_index as int].0@,
                pre_vec[last_idx.receipt_index as int].1@,
            ));
        }
        let entry = &mut self.action_receipts.0[last_idx.receipt_index];
        let act = &mut entry.1.actions[last_idx.action_index];
        match act {
            Action::FunctionCall { gas: gas_field, .. } => {
                *gas_field = *gas_field + remainder;
            },
            _ => {
                proof {
                    assert(false);
                }
                unreached()
            },
        }
        self.gas_weights.clear();
        proof {
            assert(self.action_receipts.0@ == pre_vec.update(
                last_idx.receipt_index as int,
                self.action_receipts.0@[last_idx.receipt_index as int],
            ));
            assert(self.action_receipts@ =~~= store_with_bumped(
                pre_rs,
                last_idx,
                remainder as int,
            ));
            let rs1 = self.action_receipts@;
            assert forall|jj: int|
                0 <= jj < gws.len() implies ({
                let idx = (#[trigger] gws[jj]).0;
                rs1[idx.receipt_index as int].1.actions[idx.action_index as int] == gas_bumped(
                    rs0[idx.receipt_index as int].1.actions[idx.action_index as int],
                    assigned_gas(gas, gws, jj),
                )
            }) by {
                let idx = gws[jj].0;
                assert(gas_weight_target_ok(rs0, idx));
                if jj == gws.len() - 1 {
                    assert(pre_rs[idx.receipt_index as int].1.actions[idx.action_index as int]
                        == gas_bumped(
                        rs0[idx.receipt_index as int].1.actions[idx.action_index as int],
                        per * (gws[jj].1.0 as int),
                    ));
                } else {
                    assert(gws[jj].0 != gws[gws.len() - 1].0);
                    assert(pre_rs[idx.receipt_index as int].1.actions[idx.action_index as int]
                        == gas_bumped(
                        rs0[idx.receipt_index as int].1.actions[idx.action_index as int],
                        per * (gws[jj].1.0 as int),
                    ));
                }
            }
        }
        GasDistribution::All
    }

    /// Attaches a delete-account action to an existing receipt; the
    /// remaining balance will go to the beneficiary.
    pub fn append_action_delete_account(
        &mut self,
        receipt_index: u64,
        beneficiary_id: String,
    ) -> (r: Result<(), HostError>)
        requires
            (receipt_index as int) < old(self).action_receipts@.len(),
        ensures
            r is Ok,
            final(self).action_receipts@ == store_with_appended(
                old(self).action_receipts@,
                receipt_index as int,
                ActionView::DeleteAccount { beneficiary_id: beneficiary_id@ },
            ),
            final(self).gas_weights@ == old(self).gas_weights@,
            old(self).wf() ==> final(self).wf(),
    {
        self.append_action(receipt_index, Action::DeleteAccount { beneficiary_id });
        Ok(())
    }
}

} // verus!
