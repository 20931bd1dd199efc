//! What a confirmed block says about a channel: whether it funds the
//! channel, and whether it spends the funding output.

use vstd::prelude::*;
use crate::script::Script;
use crate::transaction::{Block, OutPoint, OutPointView, TransactionView, TxInView, TxOutView};

verus! {

/// Whether `output` carries exactly `amount` satoshis under exactly `script`.
pub open spec fn output_matches(output: TxOutView, script: Seq<u8>, amount: u64) -> bool {
    output.script_pubkey == script && output.value == amount
}

/// Whether some output of `tx` matches `script` and `amount`.
pub open spec fn pays_to(tx: TransactionView, script: Seq<u8>, amount: u64) -> bool {
    exists|i: int| 0 <= i < tx.output.len() && output_matches(#[trigger] tx.output[i], script, amount)
}

/// Whether some transaction of `block` has an output that matches `script`
/// and `amount`.
pub open spec fn funding_seen(block: Seq<TransactionView>, script: Seq<u8>, amount: u64) -> bool {
    exists|t: int| 0 <= t < block.len() && pays_to(#[trigger] block[t], script, amount)
}

/// Whether `input` spends the output that `outpoint` refers to.
pub open spec fn input_spends(input: TxInView, outpoint: OutPointView) -> bool {
    input.previous_output == outpoint
}

/// Whether some input of `tx` spends `outpoint`.
pub open spec fn spends(tx: TransactionView, outpoint: OutPointView) -> bool {
    exists|i: int| 0 <= i < tx.input.len() && input_spends(#[trigger] tx.input[i], outpoint)
}

/// Whether some transaction of `block` spends `outpoint`.
pub open spec fn outpoint_spent(block: Seq<TransactionView>, outpoint: OutPointView) -> bool {
    exists|t: int| 0 <= t < block.len() && spends(#[trigger] block[t], outpoint)
}

/// Whether `block` holds the funding output: an output of exactly
/// `channel_amount_sats` satoshis locked by exactly `funding_output`. The
/// block is only read, and the order of its transactions does not matter.
pub fn block_connected(funding_output: Script, channel_amount_sats: u64, block: Block) -> (seen:
    bool)
    ensures
        seen == funding_seen(block@, funding_output@, channel_amount_sats),
{
    let mut t: usize = 0;
    while t < block.txdata.len()
        invariant
            t <= block.txdata.len(),
            forall|j: int|
                0 <= j < t ==> !pays_to(#[trigger] block@[j], funding_output@, channel_amount_sats),
        decreases block.txdata.len() - t,
    {
        let tx = &block.txdata[t];
        let mut i: usize = 0;
        while i < tx.output.len()
            invariant
                i <= tx.output.len(),
                t < block.txdata.len(),
                tx@ == block@[t as int],
                forall|k: int|
                    0 <= k < i ==> !output_matches(
                        #[trigger] tx@.output[k],
                        funding_output@,
                        channel_amount_sats,
                    ),
            decreases tx.output.len() - i,
        {
            let output = &tx.output[i];
            if output.script_pubkey.same_as(&funding_output) && output.value
                == channel_amount_sats {
                proof {
                    assert(output_matches(
                        tx@.output[i as int],
                        funding_output@,
                        channel_amount_sats,
                    ));
                }
                return true;
            }
            i = i + 1;
        }
        t = t + 1;
    }
    false
}

/// Whether `block` closes the channel: whether one of its inputs spends
/// `funding_outpoint`.
pub fn channel_closed(funding_outpoint: OutPoint, block: Block) -> (closed: bool)
    ensures
        closed == outpoint_spent(block@, funding_outpoint@),
{
    let mut t: usize = 0;
    while t < block.txdata.len()
        invariant
            t <= block.txdata.len(),
            forall|j: int| 0 <= j < t ==> !spends(#[trigger] block@[j], funding_outpoint@),
        decreases block.txdata.len() - t,
    {
        let tx = &block.txdata[t];
        let mut i: usize = 0;
        while i < tx.input.len()
            invariant
                i <= tx.input.len(),
                t < block.txdata.len(),
                tx@ == block@[t as int],
                forall|k: int|
                    0 <= k < i ==> !input_spends(#[trigger] tx@.input[k], funding_outpoint@),
            decreases tx.input.len() - i,
        {
            let input = &tx.input[i];
            if input.previous_output.same_as(&funding_outpoint) {
                proof {
                    assert(input_spends(tx@.input[i as int], funding_outpoint@));
                }
                return true;
            }
            i = i + 1;
        }
        t = t + 1;
    }
    false
}

} // verus!
