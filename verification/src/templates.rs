//! The scripts of the known contract shapes, each as an exact byte sequence.

use vstd::prelude::*;
use crate::hashes::{hash160, sha256, sha256_digest};
use crate::keys::{PublicKey, Signature};
use crate::opcodes::{
    OP_0, OP_CHECKMULTISIG, OP_CHECKSIG, OP_CLTV, OP_CSV, OP_DROP, OP_DUP, OP_ELSE, OP_ENDIF,
    OP_EQUAL, OP_EQUALVERIFY, OP_HASH160, OP_IF, OP_NOTIF, OP_SIZE, OP_SWAP,
};
use crate::script::{
    append_bytes, append_push, built, lemma_push_int_len, lemma_push_int_one_byte, push_data,
    push_int_bytes, sized, Builder, Script, ScriptError,
};
use crate::transaction::RelativeTimelock;

verus! {

/// Pay to the hash of `pubkey`:
/// `DUP HASH160 <hash> EQUALVERIFY CHECKSIG`.
pub open spec fn p2pkh_bytes(pubkey: Seq<u8>) -> Seq<u8> {
    seq![OP_DUP, OP_HASH160] + push_data(hash160(pubkey)) + seq![OP_EQUALVERIFY, OP_CHECKSIG]
}

/// The script that pays to the hash of `pubkey`.
pub fn p2pkh(pubkey: &PublicKey) -> (script: Script)
    ensures
        script@ == p2pkh_bytes(pubkey@),
        hash160(pubkey@).len() == 20,
{
    Builder::new()
        .push_opcode(OP_DUP)
        .push_opcode(OP_HASH160)
        .push_pubkey_hash(pubkey)
        .push_opcode(OP_EQUALVERIFY)
        .push_opcode(OP_CHECKSIG)
        .into_script()
        .unwrap()
}

/// Two-of-two multisig over `first` and `second`, in that order:
/// `2 <first> <second> 2 CHECKMULTISIG`. The order is the caller's: who
/// spends supplies the signatures in the order of the keys.
pub open spec fn two_of_two_bytes(first: Seq<u8>, second: Seq<u8>) -> Seq<u8> {
    push_int_bytes(2) + push_data(first) + push_data(second) + push_int_bytes(2)
        + seq![OP_CHECKMULTISIG]
}

/// The two-of-two multisig script over the two keys, in the order given.
pub fn two_of_two_multisig(alice_pubkey: &PublicKey, bob_pubkey: &PublicKey) -> (script: Script)
    ensures
        script@ == two_of_two_bytes(alice_pubkey@, bob_pubkey@),
{
    Builder::new()
        .push_int(2)
        .push_key(alice_pubkey)
        .push_key(bob_pubkey)
        .push_int(2)
        .push_opcode(OP_CHECKMULTISIG)
        .into_script()
        .unwrap()
}

/// The witness script of a channel's funding output: two-of-two multisig
/// over the two funding keys, in the order given.
pub fn two_of_two_multisig_witness_script(pubkey1: &PublicKey, pubkey2: &PublicKey) -> (script:
    Script)
    ensures
        script@ == two_of_two_bytes(pubkey1@, pubkey2@),
{
    two_of_two_multisig(pubkey1, pubkey2)
}

/// Whether `a` comes before `b` or equals it, in the order that goes by the
/// first byte in which the two differ; of two byte strings of which one
/// starts the other, the shorter one comes first.
pub open spec fn bytes_precede(a: Seq<u8>, b: Seq<u8>) -> bool
    decreases a.len(),
{
    if a.len() == 0 || b.len() == 0 {
        a.len() <= b.len()
    } else if a[0] != b[0] {
        a[0] < b[0]
    } else {
        bytes_precede(a.drop_first(), b.drop_first())
    }
}

/// Of two byte strings one comes before the other, and both do only where
/// they are equal.
pub proof fn lemma_bytes_precede_total(a: Seq<u8>, b: Seq<u8>)
    ensures
        bytes_precede(a, b) || bytes_precede(b, a),
        bytes_precede(a, b) && bytes_precede(b, a) ==> a == b,
    decreases a.len(),
{
    if a.len() > 0 && b.len() > 0 && a[0] == b[0] {
        lemma_bytes_precede_total(a.drop_first(), b.drop_first());
        if bytes_precede(a, b) && bytes_precede(b, a) {
            assert(a =~= seq![a[0]] + a.drop_first());
            assert(b =~= seq![b[0]] + b.drop_first());
        }
    }
}

/// Whether `a` comes before `b` or equals it.
pub fn precedes(a: &[u8], b: &[u8]) -> (before: bool)
    ensures
        before == bytes_precede(a@, b@),
{
    let mut i: usize = 0;
    assert(a@.skip(0) =~= a@);
    assert(b@.skip(0) =~= b@);
    while i < a.len() && i < b.len()
        invariant
            i <= a.len(),
            i <= b.len(),
            bytes_precede(a@, b@) == bytes_precede(a@.skip(i as int), b@.skip(i as int)),
        decreases a.len() - i,
    {
        if a[i] != b[i] {
            return a[i] < b[i];
        }
        proof {
            assert(a@.skip(i as int).drop_first() =~= a@.skip(i + 1));
            assert(b@.skip(i as int).drop_first() =~= b@.skip(i + 1));
        }
        i = i + 1;
    }
    a.len() <= b.len()
}

/// The two-of-two script over the two keys in ascending order of their
/// serializations: whoever builds it, from whichever side, gets the same
/// script.
pub open spec fn sorted_two_of_two_bytes(first: Seq<u8>, second: Seq<u8>) -> Seq<u8> {
    if bytes_precede(first, second) {
        two_of_two_bytes(first, second)
    } else {
        two_of_two_bytes(second, first)
    }
}

/// The order in which the two keys are given does not change the sorted
/// two-of-two script.
pub proof fn lemma_sorted_two_of_two_symmetric(first: Seq<u8>, second: Seq<u8>)
    ensures
        sorted_two_of_two_bytes(first, second) == sorted_two_of_two_bytes(second, first),
{
    lemma_bytes_precede_total(first, second);
}

/// The two-of-two multisig script over the two keys in ascending order of
/// their serializations.
pub fn sorted_two_of_two_multisig(pubkey1: &PublicKey, pubkey2: &PublicKey) -> (script: Script)
    ensures
        script@ == sorted_two_of_two_bytes(pubkey1@, pubkey2@),
        script@ == sorted_two_of_two_bytes(pubkey2@, pubkey1@),
{
    proof {
        lemma_sorted_two_of_two_symmetric(pubkey1@, pubkey2@);
    }
    if precedes(pubkey1.bytes.as_slice(), pubkey2.bytes.as_slice()) {
        two_of_two_multisig(pubkey1, pubkey2)
    } else {
        two_of_two_multisig(pubkey2, pubkey1)
    }
}

/// Two-of-three multisig: `2 <first> <second> <third> 3 CHECKMULTISIG`.
pub open spec fn two_of_three_bytes(first: Seq<u8>, second: Seq<u8>, third: Seq<u8>) -> Seq<u8> {
    push_int_bytes(2) + push_data(first) + push_data(second) + push_data(third) + push_int_bytes(3)
        + seq![OP_CHECKMULTISIG]
}

/// The two-of-three multisig redeem script over the three keys, in the order
/// given.
pub fn two_of_three_multisig_redeem_script(
    pubkey: &PublicKey,
    pubkey2: &PublicKey,
    pubkey3: &PublicKey,
) -> (script: Script)
    ensures
        script@ == two_of_three_bytes(pubkey@, pubkey2@, pubkey3@),
{
    Builder::new()
        .push_int(2)
        .push_key(pubkey)
        .push_key(pubkey2)
        .push_key(pubkey3)
        .push_int(3)
        .push_opcode(OP_CHECKMULTISIG)
        .into_script()
        .unwrap()
}

/// Pay to the hash of a redeem script: `HASH160 <hash> EQUAL`.
pub open spec fn p2sh_bytes(script_hash: Seq<u8>) -> Seq<u8> {
    seq![OP_HASH160] + push_data(script_hash) + seq![OP_EQUAL]
}

/// The script that pays to the redeem script with the hash `script_hash`.
pub fn p2sh(script_hash: &[u8; 20]) -> (script: Script)
    ensures
        script@ == p2sh_bytes(script_hash@),
{
    Builder::new()
        .push_opcode(OP_HASH160)
        .push_slice(script_hash.as_slice())
        .push_opcode(OP_EQUAL)
        .into_script()
        .unwrap()
}

/// `lock` as a script number, the timelock opcode `verify`, `DROP`, then
/// payment to the hash of `pubkey`.
pub open spec fn timelocked_p2pkh_bytes(lock: int, verify: u8, pubkey: Seq<u8>) -> Seq<u8> {
    push_int_bytes(lock) + seq![verify, OP_DROP] + p2pkh_bytes(pubkey)
}

/// Payment to the hash of `pubkey` that can be spent only from the block
/// height or time `height_or_timestamp` on:
/// `<lock> CHECKLOCKTIMEVERIFY DROP DUP HASH160 <hash> EQUALVERIFY CHECKSIG`.
pub fn cltv_p2pkh(pubkey: &PublicKey, height_or_timestamp: i64) -> (script: Script)
    ensures
        script@ == timelocked_p2pkh_bytes(height_or_timestamp as int, OP_CLTV, pubkey@),
        hash160(pubkey@).len() == 20,
{
    proof {
        lemma_push_int_len(height_or_timestamp as int);
    }
    Builder::new()
        .push_int(height_or_timestamp)
        .push_opcode(OP_CLTV)
        .push_opcode(OP_DROP)
        .push_opcode(OP_DUP)
        .push_opcode(OP_HASH160)
        .push_pubkey_hash(pubkey)
        .push_opcode(OP_EQUALVERIFY)
        .push_opcode(OP_CHECKSIG)
        .into_script()
        .unwrap()
}

/// Payment to the hash of `pubkey` that can be spent only once the output
/// is as old as `height_or_timestamp`, a relative lock in the layout of a
/// sequence number:
/// `<lock> CHECKSEQUENCEVERIFY DROP DUP HASH160 <hash> EQUALVERIFY CHECKSIG`.
pub fn csv_p2pkh(pubkey: &PublicKey, height_or_timestamp: i64) -> (script: Script)
    ensures
        script@ == timelocked_p2pkh_bytes(height_or_timestamp as int, OP_CSV, pubkey@),
        hash160(pubkey@).len() == 20,
{
    proof {
        lemma_push_int_len(height_or_timestamp as int);
    }
    Builder::new()
        .push_int(height_or_timestamp)
        .push_opcode(OP_CSV)
        .push_opcode(OP_DROP)
        .push_opcode(OP_DUP)
        .push_opcode(OP_HASH160)
        .push_pubkey_hash(pubkey)
        .push_opcode(OP_EQUALVERIFY)
        .push_opcode(OP_CHECKSIG)
        .into_script()
        .unwrap()
}

/// Payment to the hash of `pubkey` behind a relative timelock of
/// `blocks_or_seconds`.
pub fn timelocked_p2pkh(pubkey: &PublicKey, blocks_or_seconds: i64) -> (script: Script)
    ensures
        script@ == timelocked_p2pkh_bytes(blocks_or_seconds as int, OP_CSV, pubkey@),
        hash160(pubkey@).len() == 20,
{
    csv_p2pkh(pubkey, blocks_or_seconds)
}

/// Payment to the hash of `pubkey` behind the relative timelock `lock`,
/// which enters the script as the sequence number that stands for it.
pub fn relative_timelocked_p2pkh(pubkey: &PublicKey, lock: RelativeTimelock) -> (script: Script)
    ensures
        script@ == timelocked_p2pkh_bytes(lock.sequence(), OP_CSV, pubkey@),
        hash160(pubkey@).len() == 20,
{
    csv_p2pkh(pubkey, lock.to_sequence() as i64)
}

/// A version-0 witness program: `0 <program>`.
pub open spec fn witness_v0_bytes(program: Seq<u8>) -> Seq<u8> {
    seq![OP_0] + push_data(program)
}

/// The output script that pays to the witness key hash of `pubkey`:
/// `0 <hash160 of the key>`.
pub fn p2wpkh_output_script(pubkey: &PublicKey) -> (script: Script)
    ensures
        script@ == witness_v0_bytes(hash160(pubkey@)),
        hash160(pubkey@).len() == 20,
{
    Builder::new().push_opcode(OP_0).push_pubkey_hash(pubkey)
        .into_script()
        .unwrap()
}

impl Script {
    /// The output script that pays to this script as a witness script, by
    /// its hash: `0 <sha256 of the script>`.
    pub fn to_p2wsh(&self) -> (output: Script)
        ensures
            output@ == witness_v0_bytes(sha256(self@)),
            sha256(self@).len() == 32,
    {
        let program: [u8; 32] = sha256_digest(self.as_bytes());
        Builder::new().push_opcode(OP_0).push_slice(program.as_slice()).into_script().unwrap()
    }
}

/// Funding with refund: the two-of-two branch, or the refund to the first
/// key behind a relative timelock:
/// `IF <two-of-two> ELSE <timelocked payment to the first key> ENDIF`.
pub open spec fn funding_with_refund_bytes(alice: Seq<u8>, bob: Seq<u8>, lock: int) -> Seq<u8> {
    seq![OP_IF] + two_of_two_bytes(alice, bob) + seq![OP_ELSE] + timelocked_p2pkh_bytes(
        lock,
        OP_CSV,
        alice,
    ) + seq![OP_ENDIF]
}

/// The funding output of a simple payment channel: spendable by both keys
/// together, or by `alice_pubkey` alone once the output is `height` old.
pub fn payment_channel_funding_output(
    alice_pubkey: &PublicKey,
    bob_pubkey: &PublicKey,
    height: i64,
) -> (script: Script)
    ensures
        script@ == funding_with_refund_bytes(alice_pubkey@, bob_pubkey@, height as int),
        hash160(alice_pubkey@).len() == 20,
{
    let multisig = two_of_two_multisig(alice_pubkey, bob_pubkey);
    let refund = csv_p2pkh(alice_pubkey, height);
    proof {
        lemma_push_int_len(height as int);
    }
    Builder::new()
        .push_opcode(OP_IF)
        .push_script(&multisig)
        .push_opcode(OP_ELSE)
        .push_script(&refund)
        .push_opcode(OP_ENDIF)
        .into_script()
        .unwrap()
}

/// The start that both HTLC witness scripts share. Who holds the revocation
/// key sweeps at once; everyone else goes on with the remote HTLC key on the
/// stack and the test whether the witness item is 32 bytes long:
/// `DUP HASH160 <revocation hash> EQUAL IF CHECKSIG ELSE <remote key> SWAP
/// SIZE 32 EQUAL`.
pub open spec fn htlc_prologue_bytes(revocation_hash: Seq<u8>, remote_htlc_key: Seq<u8>) -> Seq<
    u8,
> {
    seq![OP_DUP, OP_HASH160] + push_data(revocation_hash) + seq![
        OP_EQUAL,
        OP_IF,
        OP_CHECKSIG,
        OP_ELSE,
    ] + push_data(remote_htlc_key) + seq![OP_SWAP, OP_SIZE] + push_int_bytes(32) + seq![OP_EQUAL]
}

/// The witness script of an HTLC that the local party offers. After the
/// shared start, an item that is not 32 bytes long leads to the two-of-two
/// of both HTLC keys, a 32-byte item must hash to the payment hash and be
/// signed by the remote key:
/// `NOTIF DROP 2 SWAP <local key> 2 CHECKMULTISIG ELSE HASH160 <payment
/// hash> EQUALVERIFY CHECKSIG ENDIF`.
pub open spec fn htlc_offered_bytes(
    revocation_hash: Seq<u8>,
    remote_htlc_key: Seq<u8>,
    local_htlc_key: Seq<u8>,
    payment_hash: Seq<u8>,
) -> Seq<u8> {
    htlc_prologue_bytes(revocation_hash, remote_htlc_key) + seq![OP_NOTIF, OP_DROP]
        + push_int_bytes(2) + seq![OP_SWAP] + push_data(local_htlc_key) + push_int_bytes(2) + seq![
        OP_CHECKMULTISIG,
        OP_ELSE,
        OP_HASH160,
    ] + push_data(payment_hash) + seq![OP_EQUALVERIFY, OP_CHECKSIG, OP_ENDIF]
}

/// The witness script of an HTLC that the local party receives. After the
/// shared start, a 32-byte item must hash to the payment hash and leads to
/// the two-of-two of both HTLC keys, any other item to the remote key's
/// signature once the absolute timelock `cltv_expiry` has passed:
/// `IF HASH160 <payment hash> EQUALVERIFY 2 SWAP <local key> 2
/// CHECKMULTISIG ELSE DROP <expiry> CHECKLOCKTIMEVERIFY DROP CHECKSIG ENDIF`.
pub open spec fn htlc_received_bytes(
    revocation_hash: Seq<u8>,
    remote_htlc_key: Seq<u8>,
    local_htlc_key: Seq<u8>,
    payment_hash: Seq<u8>,
    cltv_expiry: int,
) -> Seq<u8> {
    htlc_prologue_bytes(revocation_hash, remote_htlc_key) + seq![OP_IF, OP_HASH160] + push_data(
        payment_hash,
    ) + seq![OP_EQUALVERIFY] + push_int_bytes(2) + seq![OP_SWAP] + push_data(local_htlc_key)
        + push_int_bytes(2) + seq![OP_CHECKMULTISIG, OP_ELSE, OP_DROP] + push_int_bytes(cltv_expiry)
        + seq![OP_CLTV, OP_DROP, OP_CHECKSIG, OP_ENDIF]
}

/// The witness script of an offered HTLC.
pub fn build_htlc_offerer_witness_script(
    revocation_pubkey160: &[u8; 20],
    remote_htlc_pubkey: &PublicKey,
    local_htlc_pubkey: &PublicKey,
    payment_hash160: &[u8; 20],
) -> (script: Script)
    ensures
        script@ == htlc_offered_bytes(
            revocation_pubkey160@,
            remote_htlc_pubkey@,
            local_htlc_pubkey@,
            payment_hash160@,
        ),
{
    let prologue = Builder::new()
        .push_opcode(OP_DUP)
        .push_opcode(OP_HASH160)
        .push_slice(revocation_pubkey160.as_slice())
        .push_opcode(OP_EQUAL)
        .push_opcode(OP_IF)
        .push_opcode(OP_CHECKSIG)
        .push_opcode(OP_ELSE)
        .push_key(remote_htlc_pubkey)
        .push_opcode(OP_SWAP)
        .push_opcode(OP_SIZE)
        .push_int(32)
        .push_opcode(OP_EQUAL);
    proof {
        lemma_push_int_one_byte(32);
        assert(prologue@ is Ok);
        assert(prologue@->Ok_0 =~= htlc_prologue_bytes(
            revocation_pubkey160@,
            remote_htlc_pubkey@,
        ));
    }
    prologue
        .push_opcode(OP_NOTIF)
        .push_opcode(OP_DROP)
        .push_int(2)
        .push_opcode(OP_SWAP)
        .push_key(local_htlc_pubkey)
        .push_int(2)
        .push_opcode(OP_CHECKMULTISIG)
        .push_opcode(OP_ELSE)
        .push_opcode(OP_HASH160)
        .push_slice(payment_hash160.as_slice())
        .push_opcode(OP_EQUALVERIFY)
        .push_opcode(OP_CHECKSIG)
        .push_opcode(OP_ENDIF)
        .into_script()
        .unwrap()
}

/// The witness script of a received HTLC that expires at `cltv_expiry`.
pub fn build_htlc_receiver_witness_script(
    revocation_pubkey160: &[u8; 20],
    remote_htlc_pubkey: &PublicKey,
    local_htlc_pubkey: &PublicKey,
    payment_hash160: &[u8; 20],
    cltv_expiry: i64,
) -> (script: Script)
    ensures
        script@ == htlc_received_bytes(
            revocation_pubkey160@,
            remote_htlc_pubkey@,
            local_htlc_pubkey@,
            payment_hash160@,
            cltv_expiry as int,
        ),
{
    let prologue = Builder::new()
        .push_opcode(OP_DUP)
        .push_opcode(OP_HASH160)
        .push_slice(revocation_pubkey160.as_slice())
        .push_opcode(OP_EQUAL)
        .push_opcode(OP_IF)
        .push_opcode(OP_CHECKSIG)
        .push_opcode(OP_ELSE)
        .push_key(remote_htlc_pubkey)
        .push_opcode(OP_SWAP)
        .push_opcode(OP_SIZE)
        .push_int(32)
        .push_opcode(OP_EQUAL);
    proof {
        lemma_push_int_one_byte(32);
        lemma_push_int_len(cltv_expiry as int);
        assert(prologue@ is Ok);
        assert(prologue@->Ok_0 =~= htlc_prologue_bytes(
            revocation_pubkey160@,
            remote_htlc_pubkey@,
        ));
    }
    prologue
        .push_opcode(OP_IF)
        .push_opcode(OP_HASH160)
        .push_slice(payment_hash160.as_slice())
        .push_opcode(OP_EQUALVERIFY)
        .push_int(2)
        .push_opcode(OP_SWAP)
        .push_key(local_htlc_pubkey)
        .push_int(2)
        .push_opcode(OP_CHECKMULTISIG)
        .push_opcode(OP_ELSE)
        .push_opcode(OP_DROP)
        .push_int(cltv_expiry)
        .push_opcode(OP_CLTV)
        .push_opcode(OP_DROP)
        .push_opcode(OP_CHECKSIG)
        .push_opcode(OP_ENDIF)
        .into_script()
        .unwrap()
}

/// Which side of an HTLC the local party is on.
#[derive(Clone, Copy, Debug, PartialEq, Eq, Structural)]
pub enum HtlcDirection {
    /// The local party offers the payment and reclaims it after the expiry.
    Offered,
    /// The local party receives the payment and claims it with the preimage.
    Received,
}

/// The witness script of an HTLC in the given direction. The expiry enters
/// the script of a received HTLC only.
pub open spec fn htlc_script_bytes(
    direction: HtlcDirection,
    revocation_hash: Seq<u8>,
    remote_htlc_key: Seq<u8>,
    local_htlc_key: Seq<u8>,
    payment_hash: Seq<u8>,
    cltv_expiry: int,
) -> Seq<u8> {
    match direction {
        HtlcDirection::Offered => htlc_offered_bytes(
            revocation_hash,
            remote_htlc_key,
            local_htlc_key,
            payment_hash,
        ),
        HtlcDirection::Received => htlc_received_bytes(
            revocation_hash,
            remote_htlc_key,
            local_htlc_key,
            payment_hash,
            cltv_expiry,
        ),
    }
}

/// The witness script of an HTLC in the given direction.
pub fn htlc_witness_script(
    direction: HtlcDirection,
    revocation_pubkey160: &[u8; 20],
    remote_htlc_pubkey: &PublicKey,
    local_htlc_pubkey: &PublicKey,
    payment_hash160: &[u8; 20],
    cltv_expiry: u32,
) -> (script: Script)
    ensures
        script@ == htlc_script_bytes(
            direction,
            revocation_pubkey160@,
            remote_htlc_pubkey@,
            local_htlc_pubkey@,
            payment_hash160@,
            cltv_expiry as int,
        ),
{
    match direction {
        HtlcDirection::Offered => build_htlc_offerer_witness_script(
            revocation_pubkey160,
            remote_htlc_pubkey,
            local_htlc_pubkey,
            payment_hash160,
        ),
        HtlcDirection::Received => build_htlc_receiver_witness_script(
            revocation_pubkey160,
            remote_htlc_pubkey,
            local_htlc_pubkey,
            payment_hash160,
            cltv_expiry as i64,
        ),
    }
}

/// Offset of the opcode at which the two HTLC scripts part.
pub const HTLC_BRANCH_OFFSET: usize = 66;

/// The two HTLC scripts share their first 66 bytes and part at the branch
/// opcode that follows: `NOTIF` in the offered script, `IF` in the received
/// one. That opcode decides which claim needs the preimage and which the
/// timeout.
pub proof fn lemma_htlc_branch_boundary(
    revocation_hash: Seq<u8>,
    remote_htlc_key: Seq<u8>,
    local_htlc_key: Seq<u8>,
    payment_hash: Seq<u8>,
    cltv_expiry: int,
)
    requires
        revocation_hash.len() == 20,
        remote_htlc_key.len() == 33,
    ensures
        htlc_prologue_bytes(revocation_hash, remote_htlc_key).len() == HTLC_BRANCH_OFFSET,
        htlc_offered_bytes(
            revocation_hash,
            remote_htlc_key,
            local_htlc_key,
            payment_hash,
        ).subrange(0, HTLC_BRANCH_OFFSET as int) == htlc_prologue_bytes(
            revocation_hash,
            remote_htlc_key,
        ),
        htlc_received_bytes(
            revocation_hash,
            remote_htlc_key,
            local_htlc_key,
            payment_hash,
            cltv_expiry,
        ).subrange(0, HTLC_BRANCH_OFFSET as int) == htlc_prologue_bytes(
            revocation_hash,
            remote_htlc_key,
        ),
        htlc_offered_bytes(revocation_hash, remote_htlc_key, local_htlc_key, payment_hash)[
            HTLC_BRANCH_OFFSET as int
        ] == OP_NOTIF,
        htlc_received_bytes(
            revocation_hash,
            remote_htlc_key,
            local_htlc_key,
            payment_hash,
            cltv_expiry,
        )[HTLC_BRANCH_OFFSET as int] == OP_IF,
{
    lemma_push_int_one_byte(32);
}

/// Two HTLC scripts are equal only if they were built for the same
/// direction, whatever the keys, hashes and expiry of either.
pub proof fn lemma_htlc_direction_decides(
    direction1: HtlcDirection,
    revocation_hash1: Seq<u8>,
    remote_htlc_key1: Seq<u8>,
    local_htlc_key1: Seq<u8>,
    payment_hash1: Seq<u8>,
    cltv_expiry1: int,
    direction2: HtlcDirection,
    revocation_hash2: Seq<u8>,
    remote_htlc_key2: Seq<u8>,
    local_htlc_key2: Seq<u8>,
    payment_hash2: Seq<u8>,
    cltv_expiry2: int,
)
    requires
        revocation_hash1.len() == 20,
        remote_htlc_key1.len() == 33,
        revocation_hash2.len() == 20,
        remote_htlc_key2.len() == 33,
    ensures
        htlc_script_bytes(
            direction1,
            revocation_hash1,
            remote_htlc_key1,
            local_htlc_key1,
            payment_hash1,
            cltv_expiry1,
        ) == htlc_script_bytes(
            direction2,
            revocation_hash2,
            remote_htlc_key2,
            local_htlc_key2,
            payment_hash2,
            cltv_expiry2,
        ) ==> direction1 == direction2,
{
    lemma_htlc_branch_boundary(
        revocation_hash1,
        remote_htlc_key1,
        local_htlc_key1,
        payment_hash1,
        cltv_expiry1,
    );
    lemma_htlc_branch_boundary(
        revocation_hash2,
        remote_htlc_key2,
        local_htlc_key2,
        payment_hash2,
        cltv_expiry2,
    );
}

/// The script of a commitment's to-local output. Who holds the revocation
/// key spends at once; the delayed key spends once the output is
/// `to_self_delay` old:
/// `IF <revocation key> CHECKSIG ELSE <delay> CHECKSEQUENCEVERIFY DROP
/// <delayed key> CHECKSIG ENDIF`.
pub open spec fn to_local_bytes(revocation_key: Seq<u8>, delayed_key: Seq<u8>, delay: int) -> Seq<
    u8,
> {
    seq![OP_IF] + push_data(revocation_key) + seq![OP_CHECKSIG, OP_ELSE] + push_int_bytes(delay)
        + seq![OP_CSV, OP_DROP] + push_data(delayed_key) + seq![OP_CHECKSIG, OP_ENDIF]
}

/// The script that locks the local balance of a commitment.
pub fn to_local(
    revocation_key: &PublicKey,
    to_local_delayed_pubkey: &PublicKey,
    to_self_delay: i64,
) -> (script: Script)
    ensures
        script@ == to_local_bytes(
            revocation_key@,
            to_local_delayed_pubkey@,
            to_self_delay as int,
        ),
        script@[0] == OP_IF,
{
    proof {
        lemma_push_int_len(to_self_delay as int);
    }
    Builder::new()
        .push_opcode(OP_IF)
        .push_key(revocation_key)
        .push_opcode(OP_CHECKSIG)
        .push_opcode(OP_ELSE)
        .push_int(to_self_delay)
        .push_opcode(OP_CSV)
        .push_opcode(OP_DROP)
        .push_key(to_local_delayed_pubkey)
        .push_opcode(OP_CHECKSIG)
        .push_opcode(OP_ENDIF)
        .into_script()
        .unwrap()
}

/// The unlocking script of the two-of-two branch: both signatures, then the
/// number 0.
pub fn spend_multisig(alice_signature: &Signature, bob_signature: &Signature) -> (res: Result<
    Script,
    ScriptError,
>)
    ensures
        built(res) == append_bytes(
            append_push(append_push(Ok(Seq::empty()), alice_signature@), bob_signature@),
            push_int_bytes(0),
        ),
{
    Builder::new().push_signature(alice_signature).push_signature(bob_signature).push_int(
        0,
    ).into_script()
}

/// The unlocking script of the refund branch: the signature, the key, then
/// the number 1.
pub fn spend_refund(alice_pubkey: &PublicKey, alice_signature: &Signature) -> (res: Result<
    Script,
    ScriptError,
>)
    ensures
        built(res) == append_bytes(
            append_bytes(append_push(Ok(Seq::empty()), alice_signature@), push_data(alice_pubkey@)),
            push_int_bytes(1),
        ),
{
    Builder::new().push_signature(alice_signature).push_key(alice_pubkey).push_int(1).into_script()
}

/// The pushes of `keys`, one after the other, in the order of the sequence.
pub open spec fn key_pushes(keys: Seq<PublicKey>) -> Seq<u8>
    decreases keys.len(),
{
    if keys.len() == 0 {
        Seq::empty()
    } else {
        key_pushes(keys.drop_last()) + push_data(keys.last()@)
    }
}

/// `threshold`-of-n multisig over `keys`:
/// `<threshold> <key> ... <key> <n> CHECKMULTISIG`, the keys in the order of
/// the sequence. Who spends supplies the signatures in that same order, so
/// both parties of a channel have to agree on it.
pub open spec fn multisig_bytes(threshold: int, keys: Seq<PublicKey>) -> Seq<u8> {
    push_int_bytes(threshold) + key_pushes(keys) + push_int_bytes(keys.len() as int) + seq![
        OP_CHECKMULTISIG,
    ]
}

/// The pushes of n keys take 34 bytes each: the length byte 33, then the key.
pub proof fn lemma_key_pushes_layout(keys: Seq<PublicKey>)
    ensures
        key_pushes(keys).len() == 34 * keys.len(),
        forall|i: int|
            0 <= i < keys.len() ==> key_pushes(keys).subrange(34 * i, 34 * i + 34) == push_data(
                (#[trigger] keys[i])@,
            ),
    decreases keys.len(),
{
    if keys.len() > 0 {
        let front = keys.drop_last();
        lemma_key_pushes_layout(front);
        let all = key_pushes(keys);
        assert forall|i: int| 0 <= i < keys.len() implies all.subrange(34 * i, 34 * i + 34)
            == push_data((#[trigger] keys[i])@) by {
            if i < front.len() {
                assert(front[i] == keys[i]);
            }
        }
    }
}

/// A multisig script whose threshold and number of keys are at most 16
/// takes one byte for the threshold, 34 bytes for each key, one byte for
/// the number of keys and one for the opcode, and holds the keys in the
/// order in which they were given.
pub proof fn lemma_multisig_layout(threshold: int, keys: Seq<PublicKey>)
    requires
        0 <= threshold <= 16,
        keys.len() <= 16,
    ensures
        multisig_bytes(threshold, keys).len() == 1 + keys.len() * 34 + 1 + 1,
        forall|i: int|
            0 <= i < keys.len() ==> multisig_bytes(threshold, keys).subrange(
                1 + 34 * i + 1,
                1 + 34 * i + 34,
            ) == (#[trigger] keys[i])@,
{
    lemma_key_pushes_layout(keys);
    let all = multisig_bytes(threshold, keys);
    assert forall|i: int| 0 <= i < keys.len() implies all.subrange(
        1 + 34 * i + 1,
        1 + 34 * i + 34,
    ) == (#[trigger] keys[i])@ by {
        assert(push_data(keys[i]@).subrange(1, 34) =~= keys[i]@);
    }
}

/// Most keys that a script within the size limit can push.
pub const MAX_PUSHED_KEYS: usize = 294;

/// The `threshold`-of-n multisig script over `keys`, in the order given.
/// Fails where the script would exceed the size limit.
pub fn multisig(threshold: u32, keys: &[PublicKey]) -> (res: Result<Script, ScriptError>)
    ensures
        built(res) == sized(multisig_bytes(threshold as int, keys@)),
{
    proof {
        lemma_key_pushes_layout(keys@);
    }
    if keys.len() > MAX_PUSHED_KEYS {
        return Err(ScriptError::ScriptTooLarge);
    }
    let mut builder = Builder::new().push_int(threshold as i64);
    proof {
    }
    let mut i: usize = 0;
    while i < keys.len()
        invariant
            i <= keys.len(),
            builder@ == sized(push_int_bytes(threshold as int) + key_pushes(keys@.take(i as int))),
        decreases keys.len() - i,
    {
        proof {
            assert(keys@.take(i + 1).drop_last() =~= keys@.take(i as int));
            assert((push_int_bytes(threshold as int) + key_pushes(keys@.take(i as int)))
                + push_data(keys@[i as int]@) =~= push_int_bytes(threshold as int) + key_pushes(
                keys@.take(i + 1),
            ));
        }
        builder = builder.push_key(&keys[i]);
        i = i + 1;
    }
    proof {
        assert(keys@.take(keys.len() as int) =~= keys@);
    }
    let count: i64 = keys.len() as i64;
    builder.push_int(count).push_opcode(OP_CHECKMULTISIG).into_script()
}

} // verus!
