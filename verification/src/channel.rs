//! The transactions of a channel's life: funding, cooperative close,
//! commitment, and the HTLC transactions. Every template sets version,
//! lock time and sequence numbers itself; amounts are whole satoshis.

use vstd::prelude::*;
use crate::hashes::{hash160, hash160_digest, sha256};
use crate::keys::PublicKey;
use crate::opcodes::OP_CSV;
use crate::templates::{
    build_htlc_offerer_witness_script, csv_p2pkh, htlc_offered_bytes, htlc_script_bytes,
    htlc_witness_script, p2wpkh_output_script, timelocked_p2pkh_bytes, to_local, to_local_bytes,
    two_of_two_bytes, two_of_two_multisig_witness_script, witness_v0_bytes, HtlcDirection,
};
use crate::transaction::{
    build_output, inputs_view, outputs_view, Transaction, TransactionView, TxIn, TxInView, TxOut,
    TxOutView, LOCK_TIME_THRESHOLD, SEQUENCE_ENABLE_LOCKTIME, SEQUENCE_FINAL,
};

verus! {

/// Why a transaction could not be assembled.
#[derive(Clone, Copy, Debug, PartialEq, Eq, Structural)]
pub enum TxError {
    /// A transaction needs an input.
    NoInputs,
    /// A transaction needs an output.
    NoOutputs,
    /// The amounts add up to more than 64 bits hold.
    AmountOverflow,
    /// A balance would fall below zero.
    NegativeBalance,
    /// The lock time is no block height.
    LockTimeNotHeight,
}

/// What the outcome of an assembly holds: the transaction, or the failure.
pub open spec fn assembled(res: Result<Transaction, TxError>) -> Result<TransactionView, TxError> {
    match res {
        Ok(tx) => Ok(tx@),
        Err(e) => Err(e),
    }
}

/// `input` with the sequence number `sequence`.
pub open spec fn with_sequence(input: TxInView, sequence: u32) -> TxInView {
    TxInView { sequence, ..input }
}

/// `inputs`, each with the sequence number `sequence`.
pub open spec fn with_sequences(inputs: Seq<TxInView>, sequence: u32) -> Seq<TxInView> {
    inputs.map_values(|x: TxInView| with_sequence(x, sequence))
}

/// Sets the sequence number of every input to `sequence`.
pub fn set_sequences(inputs: &mut Vec<TxIn>, sequence: u32)
    ensures
        inputs_view(final(inputs)@) == with_sequences(inputs_view(old(inputs)@), sequence),
{
    let mut i: usize = 0;
    while i < inputs.len()
        invariant
            i <= inputs.len(),
            inputs@.len() == old(inputs)@.len(),
            forall|j: int|
                0 <= j < i ==> (#[trigger] inputs@[j])@ == with_sequence(old(inputs)@[j]@, sequence),
            forall|j: int| i <= j < inputs.len() ==> inputs@[j] == old(inputs)@[j],
        decreases inputs.len() - i,
    {
        inputs[i].sequence = sequence;
        i = i + 1;
    }
}

/// The transaction with the given fields, if it has an input and an output.
pub open spec fn transaction_of(
    version: i32,
    lock_time: u32,
    input: Seq<TxInView>,
    output: Seq<TxOutView>,
) -> Result<TransactionView, TxError> {
    if input.len() == 0 {
        Err(TxError::NoInputs)
    } else if output.len() == 0 {
        Err(TxError::NoOutputs)
    } else {
        Ok(TransactionView { version, lock_time, input, output })
    }
}

/// Assembles a transaction from its fields. A transaction without an input
/// or without an output is refused.
pub fn build_transaction(version: i32, locktime: u32, txins: Vec<TxIn>, txouts: Vec<TxOut>) -> (res:
    Result<Transaction, TxError>)
    ensures
        assembled(res) == transaction_of(
            version,
            locktime,
            inputs_view(txins@),
            outputs_view(txouts@),
        ),
        res matches Ok(tx) ==> tx@.well_formed(),
{
    if txins.len() == 0 {
        Err(TxError::NoInputs)
    } else if txouts.len() == 0 {
        Err(TxError::NoOutputs)
    } else {
        Ok(Transaction { version, lock_time: locktime, input: txins, output: txouts })
    }
}

/// The funding transaction of a channel: version 2, lock time zero, the
/// given inputs with final sequence numbers, and one output of `amount`
/// satoshis that pays to the witness script hash of the two-of-two script
/// over the two funding keys.
pub open spec fn funding_transaction(
    inputs: Seq<TxInView>,
    alice: Seq<u8>,
    bob: Seq<u8>,
    amount: u64,
) -> Result<TransactionView, TxError> {
    transaction_of(
        2,
        0,
        with_sequences(inputs, SEQUENCE_FINAL),
        seq![
            TxOutView {
                value: amount,
                script_pubkey: witness_v0_bytes(sha256(two_of_two_bytes(alice, bob))),
            },
        ],
    )
}

/// Builds the funding transaction of a channel between the two keys.
pub fn build_funding_transaction(
    txins: Vec<TxIn>,
    alice_pubkey: &PublicKey,
    bob_pubkey: &PublicKey,
    amount: u64,
) -> (res: Result<Transaction, TxError>)
    ensures
        assembled(res) == funding_transaction(
            inputs_view(txins@),
            alice_pubkey@,
            bob_pubkey@,
            amount,
        ),
        res matches Ok(tx) ==> tx@.well_formed(),
        sha256(two_of_two_bytes(alice_pubkey@, bob_pubkey@)).len() == 32,
{
    let output_script = two_of_two_multisig_witness_script(alice_pubkey, bob_pubkey);
    let output = build_output(amount, output_script.to_p2wsh());
    let mut inputs = txins;
    set_sequences(&mut inputs, SEQUENCE_FINAL);
    let mut outputs: Vec<TxOut> = Vec::new();
    outputs.push(output);
    assert(outputs_view(outputs@) =~= seq![
        TxOutView {
            value: amount,
            script_pubkey: witness_v0_bytes(sha256(two_of_two_bytes(alice_pubkey@, bob_pubkey@))),
        },
    ]);
    build_transaction(2, 0, inputs, outputs)
}

/// A list that holds the one input `input`, with the sequence number
/// `sequence`.
fn single_input(input: TxIn, sequence: u32) -> (inputs: Vec<TxIn>)
    ensures
        inputs_view(inputs@) == seq![with_sequence(input@, sequence)],
{
    let mut inputs: Vec<TxIn> = Vec::new();
    inputs.push(input);
    set_sequences(&mut inputs, sequence);
    inputs
}

/// The transaction that closes a channel by agreement: version 2, lock time
/// zero, the funding input with a final sequence number, and one output for
/// each party that pays its balance to the witness hash of its key. The
/// two balances have to fit into 64 bits together.
pub open spec fn refund_transaction(
    funding_input: TxInView,
    alice: Seq<u8>,
    bob: Seq<u8>,
    alice_balance: u64,
    bob_balance: u64,
) -> Result<TransactionView, TxError> {
    if alice_balance + bob_balance > u64::MAX {
        Err(TxError::AmountOverflow)
    } else {
        Ok(
            TransactionView {
                version: 2,
                lock_time: 0,
                input: seq![with_sequence(funding_input, SEQUENCE_FINAL)],
                output: seq![
                    TxOutView {
                        value: alice_balance,
                        script_pubkey: witness_v0_bytes(hash160(alice)),
                    },
                    TxOutView { value: bob_balance, script_pubkey: witness_v0_bytes(hash160(bob)) },
                ],
            },
        )
    }
}

/// Builds the transaction that pays each party its final balance.
pub fn build_refund_transaction(
    funding_txin: TxIn,
    alice_pubkey: PublicKey,
    bob_pubkey: PublicKey,
    alice_balance: u64,
    bob_balance: u64,
) -> (res: Result<Transaction, TxError>)
    ensures
        assembled(res) == refund_transaction(
            funding_txin@,
            alice_pubkey@,
            bob_pubkey@,
            alice_balance,
            bob_balance,
        ),
        res matches Ok(tx) ==> tx@.well_formed(),
        hash160(alice_pubkey@).len() == 20,
        hash160(bob_pubkey@).len() == 20,
{
    let alice_output_script = p2wpkh_output_script(&alice_pubkey);
    let bob_output_script = p2wpkh_output_script(&bob_pubkey);
    if alice_balance > u64::MAX - bob_balance {
        return Err(TxError::AmountOverflow);
    }
    let alice_output = build_output(alice_balance, alice_output_script);
    let bob_output = build_output(bob_balance, bob_output_script);
    let mut outputs: Vec<TxOut> = Vec::new();
    outputs.push(alice_output);
    outputs.push(bob_output);
    assert(outputs_view(outputs@) =~= seq![
        TxOutView { value: alice_balance, script_pubkey: witness_v0_bytes(hash160(alice_pubkey@)) },
        TxOutView { value: bob_balance, script_pubkey: witness_v0_bytes(hash160(bob_pubkey@)) },
    ]);
    build_transaction(2, 0, single_input(funding_txin, SEQUENCE_FINAL), outputs)
}

/// The output that holds the local balance of a commitment: spendable by
/// the revocation key at once, by the delayed key after `delay`.
pub open spec fn to_local_output(
    revocation_key: Seq<u8>,
    delayed_key: Seq<u8>,
    delay: int,
    amount: u64,
) -> TxOutView {
    TxOutView { value: amount, script_pubkey: to_local_bytes(revocation_key, delayed_key, delay) }
}

/// The output that pays the remote balance of a commitment to the witness
/// hash of the remote key, spendable at once.
pub open spec fn to_remote_output(remote_key: Seq<u8>, amount: u64) -> TxOutView {
    TxOutView { value: amount, script_pubkey: witness_v0_bytes(hash160(remote_key)) }
}

/// A commitment transaction: version 2, lock time zero, the funding input
/// with a final sequence number, the to-local output, then the to-remote
/// output. The two balances have to fit into 64 bits together.
pub open spec fn commitment_transaction(
    funding_input: TxInView,
    revocation_key: Seq<u8>,
    delayed_key: Seq<u8>,
    remote_key: Seq<u8>,
    delay: int,
    local_amount: u64,
    remote_amount: u64,
) -> Result<TransactionView, TxError> {
    if local_amount + remote_amount > u64::MAX {
        Err(TxError::AmountOverflow)
    } else {
        Ok(
            TransactionView {
                version: 2,
                lock_time: 0,
                input: seq![with_sequence(funding_input, SEQUENCE_FINAL)],
                output: seq![
                    to_local_output(revocation_key, delayed_key, delay, local_amount),
                    to_remote_output(remote_key, remote_amount),
                ],
            },
        )
    }
}

/// Builds the local party's commitment transaction. The local balance waits
/// behind `to_self_delay` and falls to the holder of the revocation key if
/// the state was revoked; the remote balance is free at once.
pub fn build_commitment_transaction(
    funding_txin: TxIn,
    revocation_pubkey: &PublicKey,
    to_local_delayed_pubkey: &PublicKey,
    remote_pubkey: PublicKey,
    to_self_delay: i64,
    local_amount: u64,
    remote_amount: u64,
) -> (res: Result<Transaction, TxError>)
    ensures
        assembled(res) == commitment_transaction(
            funding_txin@,
            revocation_pubkey@,
            to_local_delayed_pubkey@,
            remote_pubkey@,
            to_self_delay as int,
            local_amount,
            remote_amount,
        ),
        res matches Ok(tx) ==> tx@.well_formed(),
        hash160(remote_pubkey@).len() == 20,
{
    let to_remote_script = p2wpkh_output_script(&remote_pubkey);
    if local_amount > u64::MAX - remote_amount {
        return Err(TxError::AmountOverflow);
    }
    let to_local_script = to_local(revocation_pubkey, to_local_delayed_pubkey, to_self_delay);
    let local_output = build_output(local_amount, to_local_script);
    let remote_output = build_output(remote_amount, to_remote_script);
    let mut outputs: Vec<TxOut> = Vec::new();
    outputs.push(local_output);
    outputs.push(remote_output);
    assert(outputs_view(outputs@) =~= seq![
        to_local_output(
            revocation_pubkey@,
            to_local_delayed_pubkey@,
            to_self_delay as int,
            local_amount,
        ),
        to_remote_output(remote_pubkey@, remote_amount),
    ]);
    build_transaction(2, 0, single_input(funding_txin, SEQUENCE_FINAL), outputs)
}

/// A commitment transaction with one HTLC that the local party offers. The
/// HTLC's amount leaves the local balance, which must cover it, and gets an
/// output of its own after the two balances, locked by the offered HTLC
/// script with the hash of the revocation key.
pub open spec fn htlc_commitment_transaction(
    funding_input: TxInView,
    revocation_key: Seq<u8>,
    remote_htlc_key: Seq<u8>,
    local_htlc_key: Seq<u8>,
    delayed_key: Seq<u8>,
    remote_key: Seq<u8>,
    delay: int,
    payment_hash: Seq<u8>,
    htlc_amount: u64,
    local_amount: u64,
    remote_amount: u64,
) -> Result<TransactionView, TxError> {
    if htlc_amount > local_amount {
        Err(TxError::NegativeBalance)
    } else if local_amount + remote_amount > u64::MAX {
        Err(TxError::AmountOverflow)
    } else {
        Ok(
            TransactionView {
                version: 2,
                lock_time: 0,
                input: seq![with_sequence(funding_input, SEQUENCE_FINAL)],
                output: seq![
                    to_local_output(
                        revocation_key,
                        delayed_key,
                        delay,
                        (local_amount - htlc_amount) as u64,
                    ),
                    to_remote_output(remote_key, remote_amount),
                    TxOutView {
                        value: htlc_amount,
                        script_pubkey: htlc_offered_bytes(
                            hash160(revocation_key),
                            remote_htlc_key,
                            local_htlc_key,
                            payment_hash,
                        ),
                    },
                ],
            },
        )
    }
}

/// Builds the local party's commitment transaction while one HTLC that it
/// offered is in flight.
pub fn build_htlc_commitment_transaction(
    funding_txin: TxIn,
    revocation_pubkey: &PublicKey,
    remote_htlc_pubkey: &PublicKey,
    local_htlc_pubkey: &PublicKey,
    to_local_delayed_pubkey: &PublicKey,
    remote_pubkey: PublicKey,
    to_self_delay: i64,
    payment_hash160: &[u8; 20],
    htlc_amount: u64,
    local_amount: u64,
    remote_amount: u64,
) -> (res: Result<Transaction, TxError>)
    ensures
        assembled(res) == htlc_commitment_transaction(
            funding_txin@,
            revocation_pubkey@,
            remote_htlc_pubkey@,
            local_htlc_pubkey@,
            to_local_delayed_pubkey@,
            remote_pubkey@,
            to_self_delay as int,
            payment_hash160@,
            htlc_amount,
            local_amount,
            remote_amount,
        ),
        res matches Ok(tx) ==> tx@.well_formed(),
        hash160(remote_pubkey@).len() == 20,
        hash160(revocation_pubkey@).len() == 20,
{
    let revocation_pubkey160: [u8; 20] = hash160_digest(revocation_pubkey.bytes.as_slice());
    let to_remote_script = p2wpkh_output_script(&remote_pubkey);
    if htlc_amount > local_amount {
        return Err(TxError::NegativeBalance);
    }
    if local_amount > u64::MAX - remote_amount {
        return Err(TxError::AmountOverflow);
    }
    let htlc_script = build_htlc_offerer_witness_script(
        &revocation_pubkey160,
        remote_htlc_pubkey,
        local_htlc_pubkey,
        payment_hash160,
    );
    let to_local_script = to_local(revocation_pubkey, to_local_delayed_pubkey, to_self_delay);
    let local_output = build_output(local_amount - htlc_amount, to_local_script);
    let remote_output = build_output(remote_amount, to_remote_script);
    let htlc_output = build_output(htlc_amount, htlc_script);
    let mut outputs: Vec<TxOut> = Vec::new();
    outputs.push(local_output);
    outputs.push(remote_output);
    outputs.push(htlc_output);
    assert(outputs_view(outputs@) =~= seq![
        to_local_output(
            revocation_pubkey@,
            to_local_delayed_pubkey@,
            to_self_delay as int,
            (local_amount - htlc_amount) as u64,
        ),
        to_remote_output(remote_pubkey@, remote_amount),
        TxOutView {
            value: htlc_amount,
            script_pubkey: htlc_offered_bytes(
                hash160(revocation_pubkey@),
                remote_htlc_pubkey@,
                local_htlc_pubkey@,
                payment_hash160@,
            ),
        },
    ]);
    build_transaction(2, 0, single_input(funding_txin, SEQUENCE_FINAL), outputs)
}

/// An HTLC in flight: the hash that locks the payment, its amount, the
/// height at which it expires, and the side of the local party.
#[derive(Clone, Copy, Debug, PartialEq, Eq)]
pub struct Htlc {
    pub payment_hash: [u8; 20],
    pub amount: u64,
    pub cltv_expiry: u32,
    pub direction: HtlcDirection,
}

/// The sum of the amounts of the HTLCs of `htlcs` in the given direction.
pub open spec fn total_amount(htlcs: Seq<Htlc>, direction: HtlcDirection) -> nat
    decreases htlcs.len(),
{
    if htlcs.len() == 0 {
        0
    } else {
        total_amount(htlcs.drop_last(), direction) + (if htlcs.last().direction == direction {
            htlcs.last().amount as nat
        } else {
            0
        })
    }
}

/// The sum over the first HTLCs of a list is at most the sum over all.
pub proof fn lemma_total_amount_grows(htlcs: Seq<Htlc>, direction: HtlcDirection, count: int)
    requires
        0 <= count <= htlcs.len(),
    ensures
        total_amount(htlcs.take(count), direction) <= total_amount(htlcs, direction),
    decreases htlcs.len() - count,
{
    if count < htlcs.len() {
        lemma_total_amount_grows(htlcs, direction, count + 1);
        assert(htlcs.take(count + 1).drop_last() =~= htlcs.take(count));
    } else {
        assert(htlcs.take(count) =~= htlcs);
    }
}

/// The output of an HTLC: its amount, locked by the HTLC script of its
/// direction with the hash of the revocation key.
pub open spec fn htlc_output(
    htlc: Htlc,
    revocation_key: Seq<u8>,
    remote_htlc_key: Seq<u8>,
    local_htlc_key: Seq<u8>,
) -> TxOutView {
    TxOutView {
        value: htlc.amount,
        script_pubkey: htlc_script_bytes(
            htlc.direction,
            hash160(revocation_key),
            remote_htlc_key,
            local_htlc_key,
            htlc.payment_hash@,
            htlc.cltv_expiry as int,
        ),
    }
}

/// The outputs of the HTLCs of `htlcs`, in the order of the list.
pub open spec fn htlc_outputs(
    htlcs: Seq<Htlc>,
    revocation_key: Seq<u8>,
    remote_htlc_key: Seq<u8>,
    local_htlc_key: Seq<u8>,
) -> Seq<TxOutView> {
    htlcs.map_values(|h: Htlc| htlc_output(h, revocation_key, remote_htlc_key, local_htlc_key))
}

/// A commitment transaction with HTLCs in flight. What the local party
/// offered leaves the local balance, what it is to receive leaves the remote
/// balance; each balance must cover what leaves it. Every HTLC gets an
/// output of its own after the two balances, in the order of the list.
pub open spec fn commitment_with_htlcs(
    funding_input: TxInView,
    revocation_key: Seq<u8>,
    remote_htlc_key: Seq<u8>,
    local_htlc_key: Seq<u8>,
    delayed_key: Seq<u8>,
    remote_key: Seq<u8>,
    delay: int,
    htlcs: Seq<Htlc>,
    local_amount: u64,
    remote_amount: u64,
) -> Result<TransactionView, TxError> {
    let offered = total_amount(htlcs, HtlcDirection::Offered);
    let received = total_amount(htlcs, HtlcDirection::Received);
    if offered > local_amount || received > remote_amount {
        Err(TxError::NegativeBalance)
    } else if local_amount + remote_amount > u64::MAX {
        Err(TxError::AmountOverflow)
    } else {
        Ok(
            TransactionView {
                version: 2,
                lock_time: 0,
                input: seq![with_sequence(funding_input, SEQUENCE_FINAL)],
                output: seq![
                    to_local_output(
                        revocation_key,
                        delayed_key,
                        delay,
                        (local_amount - offered) as u64,
                    ),
                    to_remote_output(remote_key, (remote_amount - received) as u64),
                ] + htlc_outputs(htlcs, revocation_key, remote_htlc_key, local_htlc_key),
            },
        )
    }
}

/// Builds the local party's commitment transaction while the HTLCs of
/// `htlcs` are in flight.
pub fn build_commitment_with_htlcs(
    funding_txin: TxIn,
    revocation_pubkey: &PublicKey,
    remote_htlc_pubkey: &PublicKey,
    local_htlc_pubkey: &PublicKey,
    to_local_delayed_pubkey: &PublicKey,
    remote_pubkey: PublicKey,
    to_self_delay: i64,
    htlcs: &[Htlc],
    local_amount: u64,
    remote_amount: u64,
) -> (res: Result<Transaction, TxError>)
    ensures
        assembled(res) == commitment_with_htlcs(
            funding_txin@,
            revocation_pubkey@,
            remote_htlc_pubkey@,
            local_htlc_pubkey@,
            to_local_delayed_pubkey@,
            remote_pubkey@,
            to_self_delay as int,
            htlcs@,
            local_amount,
            remote_amount,
        ),
        res matches Ok(tx) ==> tx@.well_formed(),
        hash160(remote_pubkey@).len() == 20,
        hash160(revocation_pubkey@).len() == 20,
{
    let revocation_pubkey160: [u8; 20] = hash160_digest(revocation_pubkey.bytes.as_slice());
    let to_remote_script = p2wpkh_output_script(&remote_pubkey);
    let mut offered: u64 = 0;
    let mut received: u64 = 0;
    let mut i: usize = 0;
    while i < htlcs.len()
        invariant
            i <= htlcs.len(),
            offered == total_amount(htlcs@.take(i as int), HtlcDirection::Offered),
            received == total_amount(htlcs@.take(i as int), HtlcDirection::Received),
            offered <= local_amount,
            received <= remote_amount,
            hash160(remote_pubkey@).len() == 20,
            hash160(revocation_pubkey@).len() == 20,
        decreases htlcs.len() - i,
    {
        let htlc = &htlcs[i];
        proof {
            assert(htlcs@.take(i + 1).drop_last() =~= htlcs@.take(i as int));
            lemma_total_amount_grows(htlcs@, HtlcDirection::Offered, i + 1);
            lemma_total_amount_grows(htlcs@, HtlcDirection::Received, i + 1);
        }
        match htlc.direction {
            HtlcDirection::Offered => {
                if htlc.amount > local_amount - offered {
                    return Err(TxError::NegativeBalance);
                }
                offered = offered + htlc.amount;
            },
            HtlcDirection::Received => {
                if htlc.amount > remote_amount - received {
                    return Err(TxError::NegativeBalance);
                }
                received = received + htlc.amount;
            },
        }
        i = i + 1;
    }
    assert(htlcs@.take(htlcs@.len() as int) =~= htlcs@);
    if local_amount > u64::MAX - remote_amount {
        return Err(TxError::AmountOverflow);
    }
    let to_local_script = to_local(revocation_pubkey, to_local_delayed_pubkey, to_self_delay);
    let mut outputs: Vec<TxOut> = Vec::new();
    outputs.push(build_output(local_amount - offered, to_local_script));
    outputs.push(build_output(remote_amount - received, to_remote_script));
    let ghost balances = seq![
        to_local_output(
            revocation_pubkey@,
            to_local_delayed_pubkey@,
            to_self_delay as int,
            (local_amount - offered) as u64,
        ),
        to_remote_output(remote_pubkey@, (remote_amount - received) as u64),
    ];
    let mut j: usize = 0;
    while j < htlcs.len()
        invariant
            j <= htlcs.len(),
            revocation_pubkey160@ == hash160(revocation_pubkey@),
            outputs_view(outputs@) == balances + htlc_outputs(
                htlcs@.take(j as int),
                revocation_pubkey@,
                remote_htlc_pubkey@,
                local_htlc_pubkey@,
            ),
        decreases htlcs.len() - j,
    {
        let htlc = &htlcs[j];
        let script = htlc_witness_script(
            htlc.direction,
            &revocation_pubkey160,
            remote_htlc_pubkey,
            local_htlc_pubkey,
            &htlc.payment_hash,
            htlc.cltv_expiry,
        );
        let output = build_output(htlc.amount, script);
        proof {
            let done = htlc_outputs(
                htlcs@.take(j as int),
                revocation_pubkey@,
                remote_htlc_pubkey@,
                local_htlc_pubkey@,
            );
            let next = htlc_outputs(
                htlcs@.take(j + 1),
                revocation_pubkey@,
                remote_htlc_pubkey@,
                local_htlc_pubkey@,
            );
            assert((balances + done).push(output@) =~= balances + next);
        }
        outputs.push(output);
        j = j + 1;
    }
    build_transaction(2, 0, single_input(funding_txin, SEQUENCE_FINAL), outputs)
}

/// A commitment with one offered HTLC is the commitment with that list of
/// one: the two ways to build it agree.
pub proof fn lemma_single_offered_htlc(
    funding_input: TxInView,
    revocation_key: Seq<u8>,
    remote_htlc_key: Seq<u8>,
    local_htlc_key: Seq<u8>,
    delayed_key: Seq<u8>,
    remote_key: Seq<u8>,
    delay: int,
    htlc: Htlc,
    local_amount: u64,
    remote_amount: u64,
)
    requires
        htlc.direction == HtlcDirection::Offered,
    ensures
        commitment_with_htlcs(
            funding_input,
            revocation_key,
            remote_htlc_key,
            local_htlc_key,
            delayed_key,
            remote_key,
            delay,
            seq![htlc],
            local_amount,
            remote_amount,
        ) == htlc_commitment_transaction(
            funding_input,
            revocation_key,
            remote_htlc_key,
            local_htlc_key,
            delayed_key,
            remote_key,
            delay,
            htlc.payment_hash@,
            htlc.amount,
            local_amount,
            remote_amount,
        ),
{
    let htlcs = seq![htlc];
    assert(total_amount(htlcs.drop_last(), HtlcDirection::Offered) == 0);
    assert(total_amount(htlcs.drop_last(), HtlcDirection::Received) == 0);
    if htlc.amount <= local_amount && local_amount + remote_amount <= u64::MAX {
        let general = commitment_with_htlcs(
            funding_input,
            revocation_key,
            remote_htlc_key,
            local_htlc_key,
            delayed_key,
            remote_key,
            delay,
            htlcs,
            local_amount,
            remote_amount,
        )->Ok_0;
        let single = htlc_commitment_transaction(
            funding_input,
            revocation_key,
            remote_htlc_key,
            local_htlc_key,
            delayed_key,
            remote_key,
            delay,
            htlc.payment_hash@,
            htlc.amount,
            local_amount,
            remote_amount,
        )->Ok_0;
        assert(general.output =~= single.output);
    }
}

/// The transaction by which the local party takes back an HTLC that it
/// offered, once the HTLC has expired: version 2, the expiry as lock time,
/// the HTLC input with the sequence number zero, which lets the lock time
/// count, and one output of the HTLC's amount, locked as the to-local
/// output of a commitment is.
pub open spec fn htlc_timeout_transaction(
    htlc_input: TxInView,
    revocation_key: Seq<u8>,
    delayed_key: Seq<u8>,
    delay: int,
    cltv_expiry: u32,
    htlc_amount: u64,
) -> TransactionView {
    TransactionView {
        version: 2,
        lock_time: cltv_expiry,
        input: seq![with_sequence(htlc_input, 0)],
        output: seq![to_local_output(revocation_key, delayed_key, delay, htlc_amount)],
    }
}

/// Builds the transaction that spends an HTLC output after its expiry. What
/// it pays waits behind `to_self_delay` again, so that the counterparty can
/// still punish a revoked state.
pub fn build_htlc_timeout_transaction(
    htlc_txin: TxIn,
    revocation_pubkey: &PublicKey,
    to_local_delayed_pubkey: &PublicKey,
    to_self_delay: i64,
    cltv_expiry: u32,
    htlc_amount: u64,
) -> (tx: Transaction)
    ensures
        tx@ == htlc_timeout_transaction(
            htlc_txin@,
            revocation_pubkey@,
            to_local_delayed_pubkey@,
            to_self_delay as int,
            cltv_expiry,
            htlc_amount,
        ),
        tx@.well_formed(),
{
    let script = to_local(revocation_pubkey, to_local_delayed_pubkey, to_self_delay);
    let output = build_output(htlc_amount, script);
    let mut outputs: Vec<TxOut> = Vec::new();
    outputs.push(output);
    assert(outputs_view(outputs@) =~= seq![
        to_local_output(
            revocation_pubkey@,
            to_local_delayed_pubkey@,
            to_self_delay as int,
            htlc_amount,
        ),
    ]);
    build_transaction(2, cltv_expiry, single_input(htlc_txin, 0), outputs).unwrap()
}

/// A transaction that cannot confirm before the block height `block_height`
/// and whose one output cannot be spent before it is `csv_delay` old:
/// version 1, the height as lock time, the given inputs with sequence
/// numbers that let the lock time count, and one output of `amount` satoshis
/// that pays to the hash of `pubkey` behind the relative timelock.
pub open spec fn timelocked_transaction(
    inputs: Seq<TxInView>,
    pubkey: Seq<u8>,
    block_height: u32,
    csv_delay: u32,
    amount: u64,
) -> Result<TransactionView, TxError> {
    if block_height >= LOCK_TIME_THRESHOLD {
        Err(TxError::LockTimeNotHeight)
    } else {
        transaction_of(
            1,
            block_height,
            with_sequences(inputs, SEQUENCE_ENABLE_LOCKTIME),
            seq![
                TxOutView {
                    value: amount,
                    script_pubkey: timelocked_p2pkh_bytes(csv_delay as int, OP_CSV, pubkey),
                },
            ],
        )
    }
}

/// Builds a transaction with an absolute timelock on itself and a relative
/// timelock on its output.
pub fn build_timelocked_transaction(
    txins: Vec<TxIn>,
    pubkey: &PublicKey,
    block_height: u32,
    csv_delay: u32,
    amount: u64,
) -> (res: Result<Transaction, TxError>)
    ensures
        assembled(res) == timelocked_transaction(
            inputs_view(txins@),
            pubkey@,
            block_height,
            csv_delay,
            amount,
        ),
        res matches Ok(tx) ==> tx@.well_formed(),
{
    if block_height >= LOCK_TIME_THRESHOLD {
        return Err(TxError::LockTimeNotHeight);
    }
    let output_script = csv_p2pkh(pubkey, csv_delay as i64);
    let txout = build_output(amount, output_script);
    let mut inputs = txins;
    set_sequences(&mut inputs, SEQUENCE_ENABLE_LOCKTIME);
    let mut outputs: Vec<TxOut> = Vec::new();
    outputs.push(txout);
    assert(outputs_view(outputs@) =~= seq![
        TxOutView {
            value: amount,
            script_pubkey: timelocked_p2pkh_bytes(csv_delay as int, OP_CSV, pubkey@),
        },
    ]);
    build_transaction(1, block_height, inputs, outputs)
}

} // verus!
