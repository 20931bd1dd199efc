use payment_channel::channel::{
    build_commitment_transaction, build_commitment_with_htlcs, build_funding_transaction,
    build_htlc_commitment_transaction, build_htlc_timeout_transaction, build_refund_transaction,
    build_timelocked_transaction, build_transaction, set_sequences, Htlc, TxError,
};
use payment_channel::hashes::hash160_digest;
use payment_channel::keys::PublicKey;
use payment_channel::script::Script;
use payment_channel::templates::{
    build_htlc_offerer_witness_script, build_htlc_receiver_witness_script, csv_p2pkh,
    p2wpkh_output_script, to_local, two_of_two_multisig_witness_script, HtlcDirection,
};
use payment_channel::transaction::{
    build_output, OutPoint, RelativeTimelock, TxIn, SEQUENCE_ENABLE_LOCKTIME, SEQUENCE_FINAL,
};

const KEY_A: &str = "0279be667ef9dcbbac55a06295ce870b07029bfcdb2dce28d959f2815b16f81798";
const KEY_B: &str = "02c6047f9441ed7d6d3045406e95c07cd85c778e4b8cef3ca7abac09b95c709ee5";
const KEY_C: &str = "02f9308a019258c31049344f85f89d5229b531c845836f99b08601f113bce036f9";
const KEY_D: &str = "036d6caac248af96f6afa7f904f550253a0f3ef3f5aa2fe6838a95b216691468e2";
const KEY_E: &str = "025f7117a78150fe2ef97db7cfc83bd57b2e2c0d0dd25eaf467a4a1c2a45ce1486";

fn hex(s: &str) -> Vec<u8> {
    (0..s.len() / 2).map(|i| u8::from_str_radix(&s[2 * i..2 * i + 2], 16).unwrap()).collect()
}

fn key(s: &str) -> PublicKey {
    PublicKey::from_slice(&hex(s)).unwrap()
}

fn input(fill: u8, vout: u32, sequence: u32) -> TxIn {
    TxIn {
        previous_output: OutPoint { txid: [fill; 32], vout },
        script_sig: Script::new(),
        sequence,
        witness: Vec::new(),
    }
}

fn bytes(script: &Script) -> Vec<u8> {
    script.as_bytes().to_vec()
}

#[test]
fn funding_transaction_pays_to_the_two_of_two_witness_program() {
    // One input, worth 200,000 satoshis where it was created, funds a
    // channel of 150,000.
    let txins = vec![input(0x11, 0, 0)];
    let tx = build_funding_transaction(txins, &key(KEY_A), &key(KEY_B), 150_000).unwrap();
    assert_eq!(tx.version, 2);
    assert_eq!(tx.lock_time, 0);
    assert_eq!(tx.input.len(), 1);
    assert_eq!(tx.input[0].previous_output, OutPoint { txid: [0x11; 32], vout: 0 });
    assert_eq!(tx.output.len(), 1);
    assert_eq!(tx.output[0].value, 150_000);
    let witness_script = two_of_two_multisig_witness_script(&key(KEY_A), &key(KEY_B));
    assert_eq!(bytes(&tx.output[0].script_pubkey), bytes(&witness_script.to_p2wsh()));
    let theirs = bitcoin::ScriptBuf::from_bytes(bytes(&witness_script)).to_p2wsh();
    assert_eq!(bytes(&tx.output[0].script_pubkey), theirs.into_bytes());
    assert_eq!(tx.output[0].script_pubkey.len(), 34);
    assert_eq!(&bytes(&tx.output[0].script_pubkey)[..2], &[0x00, 0x20]);
}

#[test]
fn funding_transaction_depends_on_the_order_of_the_keys() {
    let ab = build_funding_transaction(vec![input(1, 0, 0)], &key(KEY_A), &key(KEY_B), 1).unwrap();
    let ba = build_funding_transaction(vec![input(1, 0, 0)], &key(KEY_B), &key(KEY_A), 1).unwrap();
    assert_ne!(ab.output[0].script_pubkey, ba.output[0].script_pubkey);
}

#[test]
fn funding_transaction_sets_final_sequence_numbers() {
    let txins = vec![input(1, 0, 0), input(2, 7, 12345), input(3, 1, SEQUENCE_FINAL)];
    let tx = build_funding_transaction(txins, &key(KEY_A), &key(KEY_B), 42).unwrap();
    assert_eq!(tx.input.len(), 3);
    for txin in &tx.input {
        assert_eq!(txin.sequence, SEQUENCE_FINAL);
    }
    assert_eq!(tx.input[1].previous_output, OutPoint { txid: [2; 32], vout: 7 });
}

#[test]
fn funding_transaction_needs_an_input() {
    let res = build_funding_transaction(Vec::new(), &key(KEY_A), &key(KEY_B), 150_000);
    assert_eq!(res, Err(TxError::NoInputs));
}

#[test]
fn transactions_need_inputs_and_outputs() {
    let out = build_output(5, Script::new());
    assert_eq!(build_transaction(2, 0, Vec::new(), vec![out]), Err(TxError::NoInputs));
    assert_eq!(build_transaction(2, 0, vec![input(1, 0, 0)], Vec::new()), Err(TxError::NoOutputs));
    assert_eq!(build_transaction(2, 0, Vec::new(), Vec::new()), Err(TxError::NoInputs));
    let out = build_output(5, Script::new());
    let tx = build_transaction(1, 9, vec![input(1, 0, 3)], vec![out]).unwrap();
    assert_eq!(tx.version, 1);
    assert_eq!(tx.lock_time, 9);
    assert_eq!(tx.input[0].sequence, 3);
    assert_eq!(tx.output[0].value, 5);
}

#[test]
fn sequences_are_set_on_every_input() {
    let mut txins = vec![input(1, 0, 1), input(2, 0, 2)];
    set_sequences(&mut txins, 77);
    assert_eq!(txins[0].sequence, 77);
    assert_eq!(txins[1].sequence, 77);
    assert_eq!(txins[0].previous_output.txid, [1; 32]);
    assert_eq!(txins[1].previous_output.txid, [2; 32]);
}

#[test]
fn refund_transaction_pays_each_party_its_balance() {
    let tx = build_refund_transaction(input(9, 1, 5), key(KEY_A), key(KEY_B), 70_000, 30_000)
        .unwrap();
    assert_eq!(tx.version, 2);
    assert_eq!(tx.lock_time, 0);
    assert_eq!(tx.input.len(), 1);
    assert_eq!(tx.input[0].sequence, SEQUENCE_FINAL);
    assert_eq!(tx.input[0].previous_output, OutPoint { txid: [9; 32], vout: 1 });
    assert_eq!(tx.output.len(), 2);
    assert_eq!(tx.output[0].value, 70_000);
    assert_eq!(tx.output[1].value, 30_000);
    assert_eq!(tx.output[0].script_pubkey, p2wpkh_output_script(&key(KEY_A)));
    assert_eq!(tx.output[1].script_pubkey, p2wpkh_output_script(&key(KEY_B)));
}

#[test]
fn refund_transaction_refuses_balances_that_overflow() {
    let res = build_refund_transaction(input(9, 1, 5), key(KEY_A), key(KEY_B), u64::MAX, 1);
    assert_eq!(res, Err(TxError::AmountOverflow));
    let res = build_refund_transaction(input(9, 1, 5), key(KEY_A), key(KEY_B), u64::MAX, 0);
    assert!(res.is_ok());
    let res = build_refund_transaction(input(9, 1, 5), key(KEY_A), key(KEY_B), 1 << 63, 1 << 63);
    assert_eq!(res, Err(TxError::AmountOverflow));
}

#[test]
fn commitment_transaction_locks_the_local_balance() {
    let tx = build_commitment_transaction(
        input(3, 0, 0),
        &key(KEY_A),
        &key(KEY_B),
        key(KEY_C),
        144,
        90_000,
        60_000,
    )
    .unwrap();
    assert_eq!(tx.version, 2);
    assert_eq!(tx.lock_time, 0);
    assert_eq!(tx.input.len(), 1);
    assert_eq!(tx.input[0].sequence, SEQUENCE_FINAL);
    assert_eq!(tx.output.len(), 2);
    assert_eq!(tx.output[0].value, 90_000);
    let local = bytes(&tx.output[0].script_pubkey);
    assert_eq!(local[0], 0x63);
    assert_eq!(local, bytes(&to_local(&key(KEY_A), &key(KEY_B), 144)));
    let revocation_key = local.windows(33).position(|w| w == &hex(KEY_A)[..]).unwrap();
    let csv = local.iter().rposition(|b| *b == 0xb2).unwrap();
    let delayed_key = local.windows(33).position(|w| w == &hex(KEY_B)[..]).unwrap();
    assert!(revocation_key < csv);
    assert!(csv < delayed_key);
    assert_eq!(&local[csv - 3..csv], &[0x02, 0x90, 0x00]);
    assert_eq!(tx.output[1].value, 60_000);
    assert_eq!(tx.output[1].script_pubkey, p2wpkh_output_script(&key(KEY_C)));
    assert_eq!(tx.output[1].script_pubkey.len(), 22);
}

#[test]
fn commitment_transaction_refuses_balances_that_overflow() {
    let res = build_commitment_transaction(
        input(3, 0, 0),
        &key(KEY_A),
        &key(KEY_B),
        key(KEY_C),
        144,
        u64::MAX - 5,
        6,
    );
    assert_eq!(res, Err(TxError::AmountOverflow));
}

fn htlc_commitment(htlc: u64, local: u64, remote: u64) -> Result<payment_channel::transaction::Transaction, TxError> {
    build_htlc_commitment_transaction(
        input(3, 0, 0),
        &key(KEY_A),
        &key(KEY_D),
        &key(KEY_E),
        &key(KEY_B),
        key(KEY_C),
        144,
        &[0x42; 20],
        htlc,
        local,
        remote,
    )
}

#[test]
fn htlc_commitment_takes_the_htlc_from_the_local_balance() {
    let tx = htlc_commitment(25_000, 90_000, 60_000).unwrap();
    assert_eq!(tx.version, 2);
    assert_eq!(tx.lock_time, 0);
    assert_eq!(tx.input[0].sequence, SEQUENCE_FINAL);
    assert_eq!(tx.output.len(), 3);
    assert_eq!(tx.output[0].value, 65_000);
    assert_eq!(tx.output[0].script_pubkey, to_local(&key(KEY_A), &key(KEY_B), 144));
    assert_eq!(tx.output[1].value, 60_000);
    assert_eq!(tx.output[1].script_pubkey, p2wpkh_output_script(&key(KEY_C)));
    assert_eq!(tx.output[2].value, 25_000);
    let revocation_hash = hash160_digest(&hex(KEY_A));
    let htlc_script =
        build_htlc_offerer_witness_script(&revocation_hash, &key(KEY_D), &key(KEY_E), &[0x42; 20]);
    assert_eq!(tx.output[2].script_pubkey, htlc_script);
    let total: u64 = tx.output.iter().map(|o| o.value).sum();
    assert_eq!(total, 150_000);
}

#[test]
fn htlc_commitment_may_use_up_the_local_balance() {
    let tx = htlc_commitment(90_000, 90_000, 60_000).unwrap();
    assert_eq!(tx.output[0].value, 0);
    assert_eq!(tx.output[2].value, 90_000);
}

#[test]
fn htlc_commitment_refuses_a_negative_balance() {
    assert_eq!(htlc_commitment(90_001, 90_000, 60_000), Err(TxError::NegativeBalance));
    assert_eq!(htlc_commitment(1, 0, 0), Err(TxError::NegativeBalance));
}

#[test]
fn htlc_commitment_refuses_balances_that_overflow() {
    assert_eq!(htlc_commitment(1, u64::MAX, 1), Err(TxError::AmountOverflow));
    assert_eq!(htlc_commitment(u64::MAX, 5, u64::MAX), Err(TxError::NegativeBalance));
}

#[test]
fn htlc_timeout_transaction_waits_for_the_expiry() {
    let tx = build_htlc_timeout_transaction(
        input(4, 2, SEQUENCE_FINAL),
        &key(KEY_A),
        &key(KEY_B),
        144,
        700_123,
        25_000,
    );
    assert_eq!(tx.version, 2);
    assert_eq!(tx.lock_time, 700_123);
    assert_eq!(tx.input.len(), 1);
    assert_eq!(tx.input[0].sequence, 0);
    assert_eq!(tx.input[0].previous_output, OutPoint { txid: [4; 32], vout: 2 });
    assert_eq!(tx.output.len(), 1);
    assert_eq!(tx.output[0].value, 25_000);
    assert_eq!(tx.output[0].script_pubkey, to_local(&key(KEY_A), &key(KEY_B), 144));
}

#[test]
fn timelocked_transaction_locks_itself_and_its_output() {
    let tx =
        build_timelocked_transaction(vec![input(5, 0, 0)], &key(KEY_A), 650_000, 144, 12_345)
            .unwrap();
    assert_eq!(tx.version, 1);
    assert_eq!(tx.lock_time, 650_000);
    assert_eq!(tx.input[0].sequence, SEQUENCE_ENABLE_LOCKTIME);
    assert_eq!(tx.output.len(), 1);
    assert_eq!(tx.output[0].value, 12_345);
    assert_eq!(tx.output[0].script_pubkey, csv_p2pkh(&key(KEY_A), 144));
}

#[test]
fn timelocked_transaction_refuses_a_time_as_height() {
    let res =
        build_timelocked_transaction(vec![input(5, 0, 0)], &key(KEY_A), 500_000_000, 144, 1);
    assert_eq!(res, Err(TxError::LockTimeNotHeight));
    let res =
        build_timelocked_transaction(vec![input(5, 0, 0)], &key(KEY_A), 499_999_999, 144, 1);
    assert!(res.is_ok());
    let res = build_timelocked_transaction(Vec::new(), &key(KEY_A), 1, 144, 1);
    assert_eq!(res, Err(TxError::NoInputs));
    let res = build_timelocked_transaction(Vec::new(), &key(KEY_A), 500_000_000, 144, 1);
    assert_eq!(res, Err(TxError::LockTimeNotHeight));
}

#[test]
fn relative_timelocks_follow_the_sequence_layout() {
    assert_eq!(RelativeTimelock::Blocks(144).to_sequence(), 144);
    assert_eq!(RelativeTimelock::Blocks(0xffff).to_sequence(), 0xffff);
    assert_eq!(RelativeTimelock::Intervals(5).to_sequence(), (1 << 22) | 5);
    assert_eq!(RelativeTimelock::Intervals(0xffff).to_sequence(), 0x0040_ffff);
    let theirs = bitcoin::Sequence::from_512_second_intervals(5);
    assert_eq!(RelativeTimelock::Intervals(5).to_sequence(), theirs.to_consensus_u32());
    let theirs = bitcoin::Sequence::from_height(144);
    assert_eq!(RelativeTimelock::Blocks(144).to_sequence(), theirs.to_consensus_u32());
}

fn with_htlcs(
    htlcs: &[Htlc],
    local: u64,
    remote: u64,
) -> Result<payment_channel::transaction::Transaction, TxError> {
    build_commitment_with_htlcs(
        input(3, 0, 0),
        &key(KEY_A),
        &key(KEY_D),
        &key(KEY_E),
        &key(KEY_B),
        key(KEY_C),
        144,
        htlcs,
        local,
        remote,
    )
}

fn htlc(fill: u8, amount: u64, cltv_expiry: u32, direction: HtlcDirection) -> Htlc {
    Htlc { payment_hash: [fill; 20], amount, cltv_expiry, direction }
}

#[test]
fn commitment_without_htlcs_is_the_plain_commitment() {
    let plain = build_commitment_transaction(
        input(3, 0, 0),
        &key(KEY_A),
        &key(KEY_B),
        key(KEY_C),
        144,
        90_000,
        60_000,
    )
    .unwrap();
    assert_eq!(with_htlcs(&[], 90_000, 60_000).unwrap(), plain);
}

#[test]
fn commitment_with_one_offered_htlc_agrees_with_the_single_builder() {
    let single = htlc_commitment(25_000, 90_000, 60_000).unwrap();
    let general =
        with_htlcs(&[htlc(0x42, 25_000, 0, HtlcDirection::Offered)], 90_000, 60_000).unwrap();
    assert_eq!(general, single);
}

#[test]
fn each_htlc_leaves_the_balance_of_its_side() {
    let htlcs = [
        htlc(1, 10_000, 700_000, HtlcDirection::Offered),
        htlc(2, 4_000, 700_100, HtlcDirection::Received),
        htlc(3, 5_000, 700_200, HtlcDirection::Offered),
        htlc(4, 6_000, 700_300, HtlcDirection::Received),
    ];
    let tx = with_htlcs(&htlcs, 90_000, 60_000).unwrap();
    assert_eq!(tx.version, 2);
    assert_eq!(tx.lock_time, 0);
    assert_eq!(tx.input[0].sequence, SEQUENCE_FINAL);
    assert_eq!(tx.output.len(), 6);
    assert_eq!(tx.output[0].value, 75_000);
    assert_eq!(tx.output[0].script_pubkey, to_local(&key(KEY_A), &key(KEY_B), 144));
    assert_eq!(tx.output[1].value, 50_000);
    assert_eq!(tx.output[1].script_pubkey, p2wpkh_output_script(&key(KEY_C)));
    let revocation_hash = hash160_digest(&hex(KEY_A));
    for (i, h) in htlcs.iter().enumerate() {
        assert_eq!(tx.output[2 + i].value, h.amount);
        let script = match h.direction {
            HtlcDirection::Offered => build_htlc_offerer_witness_script(
                &revocation_hash,
                &key(KEY_D),
                &key(KEY_E),
                &h.payment_hash,
            ),
            HtlcDirection::Received => build_htlc_receiver_witness_script(
                &revocation_hash,
                &key(KEY_D),
                &key(KEY_E),
                &h.payment_hash,
                h.cltv_expiry as i64,
            ),
        };
        assert_eq!(tx.output[2 + i].script_pubkey, script);
    }
    let total: u64 = tx.output.iter().map(|o| o.value).sum();
    assert_eq!(total, 150_000);
}

#[test]
fn htlcs_beyond_a_balance_are_refused() {
    let offered = [
        htlc(1, 50_000, 1, HtlcDirection::Offered),
        htlc(2, 40_001, 1, HtlcDirection::Offered),
    ];
    assert_eq!(with_htlcs(&offered, 90_000, 60_000), Err(TxError::NegativeBalance));
    assert!(with_htlcs(&offered, 90_001, 0).is_ok());
    let received = [
        htlc(1, 90_000, 1, HtlcDirection::Offered),
        htlc(2, 60_001, 1, HtlcDirection::Received),
    ];
    assert_eq!(with_htlcs(&received, 90_000, 60_000), Err(TxError::NegativeBalance));
    let huge = [
        htlc(1, u64::MAX, 1, HtlcDirection::Offered),
        htlc(2, u64::MAX, 1, HtlcDirection::Offered),
    ];
    assert_eq!(with_htlcs(&huge, u64::MAX, 0), Err(TxError::NegativeBalance));
}

#[test]
fn balances_that_overflow_are_refused_with_htlcs() {
    let htlcs = [htlc(1, 5, 1, HtlcDirection::Received)];
    assert_eq!(with_htlcs(&htlcs, u64::MAX, 5), Err(TxError::AmountOverflow));
    assert_eq!(with_htlcs(&htlcs, u64::MAX, 4), Err(TxError::NegativeBalance));
}
