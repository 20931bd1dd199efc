//! Transactions as structured values: outpoints, inputs, outputs, blocks.

use vstd::prelude::*;
use crate::script::{append_slice, bytes_equal, Script};

verus! {

/// The sequence number of an input that opts out of every timelock.
pub const SEQUENCE_FINAL: u32 = 0xffff_ffff;

/// The sequence number of an input that lets the transaction's lock time
/// take effect and sets no relative timelock.
pub const SEQUENCE_ENABLE_LOCKTIME: u32 = 0xffff_fffe;

/// Lock times below this number are block heights, the others are times.
pub const LOCK_TIME_THRESHOLD: u32 = 500_000_000;

/// The flag in a sequence number that makes a relative timelock count time,
/// in units of 512 seconds, where it otherwise counts blocks.
pub const SEQUENCE_TYPE_FLAG: u32 = 0x0040_0000;

/// A relative timelock in the layout of a sequence number: a number of
/// blocks, or a number of 512-second intervals marked by the type flag.
#[derive(Clone, Copy, Debug, PartialEq, Eq, Structural)]
pub enum RelativeTimelock {
    Blocks(u16),
    Intervals(u16),
}

impl RelativeTimelock {
    /// The sequence number, which is also the script number that
    /// `CHECKSEQUENCEVERIFY` compares with.
    pub open spec fn sequence(self) -> int {
        match self {
            RelativeTimelock::Blocks(n) => n as int,
            RelativeTimelock::Intervals(n) => SEQUENCE_TYPE_FLAG + n,
        }
    }

    /// The sequence number of the timelock. It never sets the bit that
    /// switches relative timelocks off, and it sets the type flag for
    /// intervals and for nothing else.
    pub fn to_sequence(self) -> (sequence: u32)
        ensures
            sequence == self.sequence(),
            sequence < 0x8000_0000,
            sequence >= SEQUENCE_TYPE_FLAG <==> self is Intervals,
    {
        match self {
            RelativeTimelock::Blocks(n) => n as u32,
            RelativeTimelock::Intervals(n) => SEQUENCE_TYPE_FLAG + n as u32,
        }
    }
}

/// Names an output of an earlier transaction.
#[derive(Clone, Copy, Debug, PartialEq, Eq)]
pub struct OutPoint {
    pub txid: [u8; 32],
    pub vout: u32,
}

/// What an outpoint holds: the transaction id and the output's index.
pub struct OutPointView {
    pub txid: Seq<u8>,
    pub vout: u32,
}

impl View for OutPoint {
    type V = OutPointView;

    open spec fn view(&self) -> OutPointView {
        OutPointView { txid: self.txid@, vout: self.vout }
    }
}

impl OutPoint {
    /// Whether both refer to the same output.
    pub fn same_as(&self, other: &OutPoint) -> (same: bool)
        ensures
            same == (self@ == other@),
    {
        self.vout == other.vout && bytes_equal(self.txid.as_slice(), other.txid.as_slice())
    }
}

/// An input: the output it spends, its sequence number, and the unlocking
/// data, which stays empty until the transaction is signed.
#[derive(Debug, PartialEq, Eq)]
pub struct TxIn {
    pub previous_output: OutPoint,
    pub script_sig: Script,
    pub sequence: u32,
    pub witness: Vec<Vec<u8>>,
}

/// What an input holds.
pub struct TxInView {
    pub previous_output: OutPointView,
    pub script_sig: Seq<u8>,
    pub sequence: u32,
    pub witness: Seq<Seq<u8>>,
}

impl View for TxIn {
    type V = TxInView;

    open spec fn view(&self) -> TxInView {
        TxInView {
            previous_output: self.previous_output@,
            script_sig: self.script_sig@,
            sequence: self.sequence,
            witness: witness_view(self.witness@),
        }
    }
}

/// What a witness holds: its items, in order.
pub open spec fn witness_view(witness: Seq<Vec<u8>>) -> Seq<Seq<u8>> {
    witness.map_values(|item: Vec<u8>| item@)
}

/// A copy of `witness`.
pub fn clone_witness(witness: &Vec<Vec<u8>>) -> (copy: Vec<Vec<u8>>)
    ensures
        witness_view(copy@) == witness_view(witness@),
{
    let mut copy: Vec<Vec<u8>> = Vec::new();
    let mut i: usize = 0;
    while i < witness.len()
        invariant
            i <= witness.len(),
            copy@.len() == i,
            forall|k: int| 0 <= k < i ==> (#[trigger] copy@[k])@ == witness@[k]@,
        decreases witness.len() - i,
    {
        let mut item: Vec<u8> = Vec::new();
        append_slice(&mut item, witness[i].as_slice());
        copy.push(item);
        i = i + 1;
    }
    copy
}

impl Clone for TxIn {
    fn clone(&self) -> (copy: TxIn)
        ensures
            copy@ == self@,
    {
        let copy = TxIn {
            previous_output: self.previous_output,
            script_sig: self.script_sig.clone(),
            sequence: self.sequence,
            witness: clone_witness(&self.witness),
        };
        copy
    }
}

/// An output: an amount in satoshis and the script that locks it.
#[derive(Debug, PartialEq, Eq)]
pub struct TxOut {
    pub value: u64,
    pub script_pubkey: Script,
}

/// What an output holds.
pub struct TxOutView {
    pub value: u64,
    pub script_pubkey: Seq<u8>,
}

impl View for TxOut {
    type V = TxOutView;

    open spec fn view(&self) -> TxOutView {
        TxOutView { value: self.value, script_pubkey: self.script_pubkey@ }
    }
}

impl Clone for TxOut {
    fn clone(&self) -> (copy: TxOut)
        ensures
            copy@ == self@,
    {
        TxOut { value: self.value, script_pubkey: self.script_pubkey.clone() }
    }
}

/// A transaction.
#[derive(Debug, PartialEq, Eq)]
pub struct Transaction {
    pub version: i32,
    pub lock_time: u32,
    pub input: Vec<TxIn>,
    pub output: Vec<TxOut>,
}

/// What a transaction holds.
pub struct TransactionView {
    pub version: i32,
    pub lock_time: u32,
    pub input: Seq<TxInView>,
    pub output: Seq<TxOutView>,
}

impl TransactionView {
    /// A transaction spends at least one output and creates at least one.
    pub open spec fn well_formed(self) -> bool {
        self.input.len() >= 1 && self.output.len() >= 1
    }
}

/// What a list of inputs holds.
pub open spec fn inputs_view(inputs: Seq<TxIn>) -> Seq<TxInView> {
    inputs.map_values(|x: TxIn| x@)
}

/// What a list of outputs holds.
pub open spec fn outputs_view(outputs: Seq<TxOut>) -> Seq<TxOutView> {
    outputs.map_values(|x: TxOut| x@)
}

impl View for Transaction {
    type V = TransactionView;

    open spec fn view(&self) -> TransactionView {
        TransactionView {
            version: self.version,
            lock_time: self.lock_time,
            input: inputs_view(self.input@),
            output: outputs_view(self.output@),
        }
    }
}

impl Clone for Transaction {
    fn clone(&self) -> (copy: Transaction)
        ensures
            copy@ == self@,
    {
        let mut input: Vec<TxIn> = Vec::new();
        let mut i: usize = 0;
        while i < self.input.len()
            invariant
                i <= self.input.len(),
                input@.len() == i,
                forall|k: int| 0 <= k < i ==> (#[trigger] input@[k])@ == self.input@[k]@,
            decreases self.input.len() - i,
        {
            let item = self.input[i].clone();
            input.push(item);
            i = i + 1;
        }
        let mut output: Vec<TxOut> = Vec::new();
        let mut j: usize = 0;
        while j < self.output.len()
            invariant
                j <= self.output.len(),
                output@.len() == j,
                forall|k: int| 0 <= k < j ==> (#[trigger] output@[k])@ == self.output@[k]@,
            decreases self.output.len() - j,
        {
            let item = self.output[j].clone();
            output.push(item);
            j = j + 1;
        }
        proof {
            assert(inputs_view(input@) =~= inputs_view(self.input@));
            assert(outputs_view(output@) =~= outputs_view(self.output@));
        }
        Transaction { version: self.version, lock_time: self.lock_time, input, output }
    }
}

/// The transactions of a block, in the block's order.
#[derive(Debug, PartialEq, Eq)]
pub struct Block {
    pub txdata: Vec<Transaction>,
}

impl View for Block {
    type V = Seq<TransactionView>;

    open spec fn view(&self) -> Seq<TransactionView> {
        self.txdata@.map_values(|x: Transaction| x@)
    }
}

impl Clone for Block {
    fn clone(&self) -> (copy: Block)
        ensures
            copy@ == self@,
    {
        let mut txdata: Vec<Transaction> = Vec::new();
        let mut i: usize = 0;
        while i < self.txdata.len()
            invariant
                i <= self.txdata.len(),
                txdata@.len() == i,
                forall|k: int| 0 <= k < i ==> (#[trigger] txdata@[k])@ == self.txdata@[k]@,
            decreases self.txdata.len() - i,
        {
            let item = self.txdata[i].clone();
            txdata.push(item);
            i = i + 1;
        }
        let copy = Block { txdata };
        copy
    }
}

/// An output of `amount` satoshis locked by `output_script`.
pub fn build_output(amount: u64, output_script: Script) -> (output: TxOut)
    ensures
        output@ == (TxOutView { value: amount, script_pubkey: output_script@ }),
{
    TxOut { value: amount, script_pubkey: output_script }
}

} // verus!
