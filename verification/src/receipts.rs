//! The pending-receipt store and its one-time finalization into outgoing
//! receipt records.

use vstd::prelude::*;

use crate::actions::{Action, ActionView, Balance};
use crate::crypto::PublicKey;
use crate::ids::DataId;

verus! {

/// Spec view of [`DataReceiver`].
#[verifier::ext_equal]
pub ghost struct DataReceiverView {
    pub data_id: DataId,
    pub receiver_id: Seq<char>,
}

/// Where to route one piece of a receipt's output data: the identifier the
/// dependent receipt waits on, and the account that hosts it.
#[derive(Debug, PartialEq, Eq)]
pub struct DataReceiver {
    pub data_id: DataId,
    pub receiver_id: String,
}

impl View for DataReceiver {
    type V = DataReceiverView;

    open spec fn view(&self) -> DataReceiverView {
        DataReceiverView { data_id: self.data_id, receiver_id: self.receiver_id@ }
    }
}

/// Spec view of [`ReceiptMetadata`].
#[verifier::ext_equal]
pub ghost struct ReceiptMetadataView {
    pub output_data_receivers: Seq<DataReceiverView>,
    pub input_data_ids: Seq<DataId>,
    pub actions: Seq<ActionView>,
}

/// Everything accumulated against one pending receipt.  All three sequences
/// only ever grow while the receipt is pending.
#[derive(Debug, PartialEq, Eq)]
pub struct ReceiptMetadata {
    /// Receipts to notify of this receipt's own completion.
    pub output_data_receivers: Vec<DataReceiver>,
    /// Data this receipt must wait on before it may execute.
    pub input_data_ids: Vec<DataId>,
    /// Operations to perform once all inputs are satisfied.
    pub actions: Vec<Action>,
}

impl View for ReceiptMetadata {
    type V = ReceiptMetadataView;

    open spec fn view(&self) -> ReceiptMetadataView {
        ReceiptMetadataView {
            output_data_receivers: self.output_data_receivers@.map_values(
                |d: DataReceiver| d@,
            ),
            input_data_ids: self.input_data_ids@,
            actions: self.actions@.map_values(|a: Action| a@),
        }
    }
}

/// Spec view of [`Receipt`].
#[verifier::ext_equal]
pub ghost struct ReceiptView {
    pub predecessor_id: Seq<char>,
    pub receiver_id: Seq<char>,
    pub receipt_id: DataId,
    pub signer_id: Seq<char>,
    pub signer_public_key: Seq<u8>,
    pub gas_price: Balance,
    pub output_data_receivers: Seq<DataReceiverView>,
    pub input_data_ids: Seq<DataId>,
    pub actions: Seq<ActionView>,
}

/// An outgoing action receipt, ready for the execution engine.  Its own
/// `receipt_id` is left unassigned here; assigning real identities to
/// outgoing receipts is the engine's job.
#[derive(Debug, PartialEq, Eq)]
pub struct Receipt {
    pub predecessor_id: String,
    pub receiver_id: String,
    pub receipt_id: DataId,
    pub signer_id: String,
    pub signer_public_key: PublicKey,
    pub gas_price: Balance,
    pub output_data_receivers: Vec<DataReceiver>,
    pub input_data_ids: Vec<DataId>,
    pub actions: Vec<Action>,
}

impl View for Receipt {
    type V = ReceiptView;

    open spec fn view(&self) -> ReceiptView {
        ReceiptView {
            predecessor_id: self.predecessor_id@,
            receiver_id: self.receiver_id@,
            receipt_id: self.receipt_id,
            signer_id: self.signer_id@,
            signer_public_key: self.signer_public_key@,
            gas_price: self.gas_price,
            output_data_receivers: self.output_data_receivers@.map_values(
                |d: DataReceiver| d@,
            ),
            input_data_ids: self.input_data_ids@,
            actions: self.actions@.map_values(|a: Action| a@),
        }
    }
}

/// The pending-receipt store: an append-only sequence of (receiver account,
/// receipt metadata) pairs.  A receipt's position in this sequence is its
/// receipt index, a dense handle assigned at creation and never reused.
#[derive(Debug, PartialEq, Eq)]
pub struct ActionReceipts(pub Vec<(String, ReceiptMetadata)>);

impl View for ActionReceipts {
    type V = Seq<(Seq<char>, ReceiptMetadataView)>;

    open spec fn view(&self) -> Seq<(Seq<char>, ReceiptMetadataView)> {
        self.0@.map_values(|e: (String, ReceiptMetadata)| (e.0@, e.1@))
    }
}

/// The outgoing record produced for one store entry: the shared execution
/// context, the entry's receiver, and its accumulated metadata, unchanged.
pub open spec fn finalized_record(
    entry: (Seq<char>, ReceiptMetadataView),
    predecessor_id: Seq<char>,
    signer_id: Seq<char>,
    signer_public_key: Seq<u8>,
    gas_price: Balance,
) -> ReceiptView {
    ReceiptView {
        predecessor_id: predecessor_id,
        receiver_id: entry.0,
        receipt_id: DataId::unassigned_spec(),
        signer_id: signer_id,
        signer_public_key: signer_public_key,
        gas_price: gas_price,
        output_data_receivers: entry.1.output_data_receivers,
        input_data_ids: entry.1.input_data_ids,
        actions: entry.1.actions,
    }
}

/// What draining a whole store yields: one record per entry, in creation
/// order.
pub open spec fn finalized_records(
    receipts: Seq<(Seq<char>, ReceiptMetadataView)>,
    predecessor_id: Seq<char>,
    signer_id: Seq<char>,
    signer_public_key: Seq<u8>,
    gas_price: Balance,
) -> Seq<ReceiptView> {
    receipts.map_values(
        |e: (Seq<char>, ReceiptMetadataView)|
            finalized_record(e, predecessor_id, signer_id, signer_public_key, gas_price),
    )
}

/// The views of a sequence of outgoing records.
pub open spec fn record_views(records: Seq<Receipt>) -> Seq<ReceiptView> {
    records.map_values(|r: Receipt| r@)
}

impl Default for ActionReceipts {
    /// Same as [`ActionReceipts::new`].
    fn default() -> (s: Self)
        ensures
            s@ =~= Seq::<(Seq<char>, ReceiptMetadataView)>::empty(),
    {
        ActionReceipts::new()
    }
}

impl ActionReceipts {
    /// An empty store.
    pub fn new() -> (s: ActionReceipts)
        ensures
            s@ =~= Seq::<(Seq<char>, ReceiptMetadataView)>::empty(),
    {
        ActionReceipts(Vec::new())
    }

    /// Drains every pending receipt, in creation order, into an outgoing
    /// record carrying the shared predecessor/signer/gas-price context.  The
    /// store is empty afterwards.
    pub fn take_receipts(
        &mut self,
        predecessor_id: &String,
        signer_id: &String,
        signer_public_key: &PublicKey,
        gas_price: Balance,
    ) -> (out: Vec<Receipt>)
        ensures
            final(self)@.len() == 0,
            record_views(out@) == finalized_records(
                old(self)@,
                predecessor_id@,
                signer_id@,
                signer_public_key@,
                gas_price,
            ),
    {
        let ghost all = self@;
        let mut out: Vec<Receipt> = Vec::new();
        while self.0.len() > 0
            invariant
                out@.len() <= all.len(),
                self@ =~~= all.skip(out@.len() as int),
                record_views(out@) =~~= finalized_records(
                    all.take(out@.len() as int),
                    predecessor_id@,
                    signer_id@,
                    signer_public_key@,
                    gas_price,
                ),
            decreases self.0.len(),
        {
            let ghost k0 = out@.len() as int;
            let ghost pre = self@;
            let ghost vec0 = self.0@;
            let (receiver_id, metadata) = self.0.remove(0);
            proof {
                assert(pre.len() == vec0.len());
                assert(0 <= k0 < all.len());
                assert(pre[0] == (vec0[0].0@, vec0[0].1@));
                assert(all.skip(k0)[0] == all[k0]);
            }
            let record = Receipt {
                predecessor_id: predecessor_id.clone(),
                receiver_id,
                receipt_id: DataId::unassigned(),
                signer_id: signer_id.clone(),
                signer_public_key: signer_public_key.clone(),
                gas_price,
                output_data_receivers: metadata.output_data_receivers,
                input_data_ids: metadata.input_data_ids,
                actions: metadata.actions,
            };
            let ghost out0 = out@;
            out.push(record);
            proof {
                assert(self.0@.len() == pre.len() - 1);
                assert forall|i: int| 0 <= i < self@.len() implies self@[i] == pre[i + 1] by {
                    assert(self@[i] == (self.0@[i].0@, self.0@[i].1@));
                }
                assert(self@ =~~= pre.skip(1));
                assert(pre.skip(1) =~~= all.skip(k0 + 1));
                assert(record@ =~~= finalized_record(
                    all[k0],
                    predecessor_id@,
                    signer_id@,
                    signer_public_key@,
                    gas_price,
                ));
                assert(self@ =~~= all.skip(out@.len() as int));
                let ghost taken = all.take(out@.len() as int);
                assert(record_views(out@).len() == taken.len());
                assert forall|i: int| 0 <= i < taken.len() implies record_views(out@)[i]
                    == finalized_record(
                    taken[i],
                    predecessor_id@,
                    signer_id@,
                    signer_public_key@,
                    gas_price,
                ) by {
                    assert(taken[i] == all[i]);
                    if i < k0 {
                        assert(record_views(out@)[i] == out@[i]@);
                        assert(out@[i] == out0[i]);
                        assert(record_views(out0)[i] == out0[i]@);
                        assert(record_views(out0)[i] == finalized_records(
                            all.take(k0),
                            predecessor_id@,
                            signer_id@,
                            signer_public_key@,
                            gas_price,
                        )[i]);
                        assert(all.take(k0)[i] == all[i]);
                    } else {
                        assert(record_views(out@)[i] == record@);
                    }
                }
                assert(record_views(out@) =~~= finalized_records(
                    all.take(out@.len() as int),
                    predecessor_id@,
                    signer_id@,
                    signer_public_key@,
                    gas_price,
                ));
            }
        }
        proof {
            assert(all.take(out@.len() as int) =~~= all);
            assert(record_views(out@) == finalized_records(
                all,
                predecessor_id@,
                signer_id@,
                signer_public_key@,
                gas_price,
            ));
        }
        out
    }
}

} // verus!
