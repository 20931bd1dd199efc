use payment_channel::keys::{PublicKey, Signature};
use payment_channel::script::{Script, ScriptError};
use payment_channel::transaction::RelativeTimelock;
use payment_channel::templates::{
    build_htlc_offerer_witness_script, build_htlc_receiver_witness_script, cltv_p2pkh, csv_p2pkh,
    htlc_witness_script, multisig, p2pkh, p2sh, p2wpkh_output_script,
    payment_channel_funding_output, precedes, relative_timelocked_p2pkh,
    sorted_two_of_two_multisig, spend_multisig,
    spend_refund, timelocked_p2pkh, to_local, two_of_three_multisig_redeem_script,
    two_of_two_multisig, two_of_two_multisig_witness_script, HtlcDirection, HTLC_BRANCH_OFFSET,
};

const KEY_G: &str = "0279be667ef9dcbbac55a06295ce870b07029bfcdb2dce28d959f2815b16f81798";
const KEY_2G: &str = "02c6047f9441ed7d6d3045406e95c07cd85c778e4b8cef3ca7abac09b95c709ee5";
const KEY_3G: &str = "02f9308a019258c31049344f85f89d5229b531c845836f99b08601f113bce036f9";
const HASH_G: &str = "751e76e8199196d454941c45d1b3a323f1433bd6";

fn hex(s: &str) -> Vec<u8> {
    (0..s.len() / 2).map(|i| u8::from_str_radix(&s[2 * i..2 * i + 2], 16).unwrap()).collect()
}

fn key(s: &str) -> PublicKey {
    PublicKey::from_slice(&hex(s)).unwrap()
}

fn bytes(script: &Script) -> Vec<u8> {
    script.as_bytes().to_vec()
}

fn concat(parts: &[&[u8]]) -> Vec<u8> {
    let mut all = Vec::new();
    for part in parts {
        all.extend_from_slice(part);
    }
    all
}

fn bitcoin_key(s: &str) -> bitcoin::PublicKey {
    bitcoin::PublicKey::from_slice(&hex(s)).unwrap()
}

#[test]
fn p2pkh_is_the_standard_script() {
    let script = p2pkh(&key(KEY_G));
    let expected = concat(&[&[0x76, 0xa9, 0x14], &hex(HASH_G), &[0x88, 0xac]]);
    assert_eq!(bytes(&script), expected);
    let theirs = bitcoin::ScriptBuf::new_p2pkh(&bitcoin_key(KEY_G).pubkey_hash());
    assert_eq!(bytes(&script), theirs.into_bytes());
}

#[test]
fn p2wpkh_is_version_zero_and_the_key_hash() {
    let script = p2wpkh_output_script(&key(KEY_G));
    assert_eq!(bytes(&script), concat(&[&[0x00, 0x14], &hex(HASH_G)]));
    let theirs = bitcoin::ScriptBuf::new_p2wpkh(&bitcoin_key(KEY_G).wpubkey_hash().unwrap());
    assert_eq!(bytes(&script), theirs.into_bytes());
}

#[test]
fn p2wsh_is_version_zero_and_the_script_hash() {
    let empty = Script::new().to_p2wsh();
    assert_eq!(
        bytes(&empty),
        hex("0020e3b0c44298fc1c149afbf4c8996fb92427ae41e4649b934ca495991b7852b855")
    );
    let script = two_of_two_multisig(&key(KEY_G), &key(KEY_2G));
    let theirs = bitcoin::ScriptBuf::from_bytes(bytes(&script)).to_p2wsh();
    assert_eq!(bytes(&script.to_p2wsh()), theirs.into_bytes());
    assert_ne!(bytes(&script.to_p2wsh()), bytes(&script));
}

#[test]
fn p2sh_wraps_the_given_hash() {
    let mut hash = [0u8; 20];
    hash.copy_from_slice(&hex(HASH_G));
    let script = p2sh(&hash);
    assert_eq!(bytes(&script), concat(&[&[0xa9, 0x14], &hex(HASH_G), &[0x87]]));
}

#[test]
fn two_of_two_keeps_the_order_of_the_keys() {
    let script = two_of_two_multisig(&key(KEY_G), &key(KEY_2G));
    let expected = concat(&[&[0x52, 0x21], &hex(KEY_G), &[0x21], &hex(KEY_2G), &[0x52, 0xae]]);
    assert_eq!(bytes(&script), expected);
    assert_eq!(script.len(), 1 + 2 * 34 + 1 + 1);
    let swapped = two_of_two_multisig(&key(KEY_2G), &key(KEY_G));
    let expected = concat(&[&[0x52, 0x21], &hex(KEY_2G), &[0x21], &hex(KEY_G), &[0x52, 0xae]]);
    assert_eq!(bytes(&swapped), expected);
    assert_ne!(bytes(&script), bytes(&swapped));
    assert_eq!(
        bytes(&two_of_two_multisig_witness_script(&key(KEY_G), &key(KEY_2G))),
        bytes(&script)
    );
}

#[test]
fn two_of_two_matches_the_bitcoin_crate() {
    let theirs = bitcoin::script::Builder::new()
        .push_int(2)
        .push_key(&bitcoin_key(KEY_G))
        .push_key(&bitcoin_key(KEY_2G))
        .push_int(2)
        .push_opcode(bitcoin::opcodes::all::OP_CHECKMULTISIG)
        .into_bytes();
    assert_eq!(bytes(&two_of_two_multisig(&key(KEY_G), &key(KEY_2G))), theirs);
}

#[test]
fn two_of_three_holds_three_keys() {
    let script = two_of_three_multisig_redeem_script(&key(KEY_G), &key(KEY_2G), &key(KEY_3G));
    let expected = concat(&[
        &[0x52, 0x21],
        &hex(KEY_G),
        &[0x21],
        &hex(KEY_2G),
        &[0x21],
        &hex(KEY_3G),
        &[0x53, 0xae],
    ]);
    assert_eq!(bytes(&script), expected);
    assert_eq!(script.len(), 1 + 3 * 34 + 1 + 1);
}

#[test]
fn general_multisig_agrees_with_the_fixed_ones() {
    let keys = [key(KEY_G), key(KEY_2G)];
    assert_eq!(
        bytes(&multisig(2, &keys).unwrap()),
        bytes(&two_of_two_multisig(&key(KEY_G), &key(KEY_2G)))
    );
    let keys = [key(KEY_G), key(KEY_2G), key(KEY_3G)];
    assert_eq!(
        bytes(&multisig(2, &keys).unwrap()),
        bytes(&two_of_three_multisig_redeem_script(&key(KEY_G), &key(KEY_2G), &key(KEY_3G)))
    );
}

#[test]
fn multisig_length_follows_the_number_of_keys() {
    for n in 0..=16usize {
        let keys: Vec<PublicKey> = (0..n).map(|_| key(KEY_3G)).collect();
        let script = multisig(1, &keys).unwrap();
        assert_eq!(script.len(), 1 + n * 34 + 1 + 1);
    }
    let keys: Vec<PublicKey> = (0..17).map(|_| key(KEY_3G)).collect();
    assert_eq!(multisig(1, &keys).unwrap().len(), 1 + 17 * 34 + 2 + 1);
}

#[test]
fn multisig_holds_each_key_at_its_place() {
    let keys = [key(KEY_3G), key(KEY_G), key(KEY_2G), key(KEY_G)];
    let script = bytes(&multisig(3, &keys).unwrap());
    assert_eq!(script[0], 0x53);
    for (i, k) in keys.iter().enumerate() {
        assert_eq!(script[1 + 34 * i], 33);
        assert_eq!(&script[1 + 34 * i + 1..1 + 34 * i + 34], &k.serialize()[..]);
    }
    assert_eq!(script[1 + 34 * 4], 0x54);
    assert_eq!(script[1 + 34 * 4 + 1], 0xae);
}

#[test]
fn multisig_with_too_many_keys_fails() {
    let keys: Vec<PublicKey> = (0..293).map(|_| key(KEY_G)).collect();
    assert_eq!(multisig(2, &keys).unwrap().len(), 1 + 293 * 34 + 3 + 1);
    let keys: Vec<PublicKey> = (0..294).map(|_| key(KEY_G)).collect();
    assert_eq!(multisig(2, &keys), Err(ScriptError::ScriptTooLarge));
    let keys: Vec<PublicKey> = (0..1000).map(|_| key(KEY_G)).collect();
    assert_eq!(multisig(2, &keys), Err(ScriptError::ScriptTooLarge));
}

#[test]
fn csv_p2pkh_puts_the_delay_first() {
    let script = csv_p2pkh(&key(KEY_G), 144);
    let expected = concat(&[
        &[0x02, 0x90, 0x00, 0xb2, 0x75, 0x76, 0xa9, 0x14],
        &hex(HASH_G),
        &[0x88, 0xac],
    ]);
    assert_eq!(bytes(&script), expected);
    assert_eq!(bytes(&timelocked_p2pkh(&key(KEY_G), 144)), expected);
    let short = csv_p2pkh(&key(KEY_G), 10);
    assert_eq!(&bytes(&short)[..3], &[0x5a, 0xb2, 0x75]);
}

#[test]
fn csv_p2pkh_counts_time_with_the_type_flag() {
    let script = csv_p2pkh(&key(KEY_G), 0x0040_0000 + 5);
    assert_eq!(&bytes(&script)[..5], &[0x03, 0x05, 0x00, 0x40, 0xb2]);
}

#[test]
fn cltv_p2pkh_puts_the_lock_time_first() {
    let script = cltv_p2pkh(&key(KEY_G), 500_000);
    let expected = concat(&[
        &[0x03, 0x20, 0xa1, 0x07, 0xb1, 0x75, 0x76, 0xa9, 0x14],
        &hex(HASH_G),
        &[0x88, 0xac],
    ]);
    assert_eq!(bytes(&script), expected);
}

#[test]
fn funding_with_refund_has_both_branches() {
    let script = payment_channel_funding_output(&key(KEY_G), &key(KEY_2G), 1000);
    let expected = concat(&[
        &[0x63],
        &bytes(&two_of_two_multisig(&key(KEY_G), &key(KEY_2G))),
        &[0x67],
        &bytes(&csv_p2pkh(&key(KEY_G), 1000)),
        &[0x68],
    ]);
    assert_eq!(bytes(&script), expected);
}

#[test]
fn to_local_starts_with_the_revocation_branch() {
    let script = bytes(&to_local(&key(KEY_G), &key(KEY_2G), 144));
    let expected = concat(&[
        &[0x63, 0x21],
        &hex(KEY_G),
        &[0xac, 0x67, 0x02, 0x90, 0x00, 0xb2, 0x75, 0x21],
        &hex(KEY_2G),
        &[0xac, 0x68],
    ]);
    assert_eq!(script, expected);
    assert_eq!(script[0], 0x63);
    let csv = script.iter().position(|b| *b == 0xb2).unwrap();
    let revocation_key = 2;
    assert!(revocation_key < csv);
}

fn hash20(fill: u8) -> [u8; 20] {
    [fill; 20]
}

#[test]
fn offered_htlc_script_is_exact() {
    let script = build_htlc_offerer_witness_script(
        &hash20(0xaa),
        &key(KEY_G),
        &key(KEY_2G),
        &hash20(0xbb),
    );
    let expected = concat(&[
        &[0x76, 0xa9, 0x14],
        &hash20(0xaa),
        &[0x87, 0x63, 0xac, 0x67, 0x21],
        &hex(KEY_G),
        &[0x7c, 0x82, 0x01, 0x20, 0x87, 0x64, 0x75, 0x52, 0x7c, 0x21],
        &hex(KEY_2G),
        &[0x52, 0xae, 0x67, 0xa9, 0x14],
        &hash20(0xbb),
        &[0x88, 0xac, 0x68],
    ]);
    assert_eq!(bytes(&script), expected);
}

#[test]
fn received_htlc_script_is_exact() {
    let script = build_htlc_receiver_witness_script(
        &hash20(0xaa),
        &key(KEY_G),
        &key(KEY_2G),
        &hash20(0xbb),
        500_000,
    );
    let expected = concat(&[
        &[0x76, 0xa9, 0x14],
        &hash20(0xaa),
        &[0x87, 0x63, 0xac, 0x67, 0x21],
        &hex(KEY_G),
        &[0x7c, 0x82, 0x01, 0x20, 0x87, 0x63, 0xa9, 0x14],
        &hash20(0xbb),
        &[0x88, 0x52, 0x7c, 0x21],
        &hex(KEY_2G),
        &[0x52, 0xae, 0x67, 0x75, 0x03, 0x20, 0xa1, 0x07, 0xb1, 0x75, 0xac, 0x68],
    ]);
    assert_eq!(bytes(&script), expected);
}

#[test]
fn htlc_scripts_part_at_the_branch_opcode() {
    let offered = bytes(&htlc_witness_script(
        HtlcDirection::Offered,
        &hash20(1),
        &key(KEY_G),
        &key(KEY_2G),
        &hash20(2),
        700_000,
    ));
    let received = bytes(&htlc_witness_script(
        HtlcDirection::Received,
        &hash20(1),
        &key(KEY_G),
        &key(KEY_2G),
        &hash20(2),
        700_000,
    ));
    assert_eq!(HTLC_BRANCH_OFFSET, 66);
    assert_eq!(&offered[..66], &received[..66]);
    assert_eq!(offered[66], 0x64);
    assert_eq!(received[66], 0x63);
    assert_ne!(offered, received);
}

#[test]
fn htlc_scripts_of_one_direction_agree() {
    let first = htlc_witness_script(
        HtlcDirection::Received,
        &hash20(1),
        &key(KEY_G),
        &key(KEY_2G),
        &hash20(2),
        700_000,
    );
    let second = build_htlc_receiver_witness_script(
        &hash20(1),
        &key(KEY_G),
        &key(KEY_2G),
        &hash20(2),
        700_000,
    );
    assert_eq!(bytes(&first), bytes(&second));
    let first = htlc_witness_script(
        HtlcDirection::Offered,
        &hash20(1),
        &key(KEY_G),
        &key(KEY_2G),
        &hash20(2),
        1,
    );
    let second = htlc_witness_script(
        HtlcDirection::Offered,
        &hash20(1),
        &key(KEY_G),
        &key(KEY_2G),
        &hash20(2),
        2,
    );
    assert_eq!(bytes(&first), bytes(&second));
}

#[test]
fn htlc_scripts_of_other_parameters_still_differ_by_direction() {
    let offered = bytes(&htlc_witness_script(
        HtlcDirection::Offered,
        &hash20(9),
        &key(KEY_3G),
        &key(KEY_G),
        &hash20(8),
        5,
    ));
    let received = bytes(&htlc_witness_script(
        HtlcDirection::Received,
        &hash20(1),
        &key(KEY_G),
        &key(KEY_2G),
        &hash20(2),
        700_000,
    ));
    assert_ne!(offered, received);
    assert_eq!(offered[66], 0x64);
    assert_eq!(received[66], 0x63);
}

fn signature(len: usize) -> Signature {
    Signature { bytes: (0..len).map(|i| (i % 200) as u8 + 1).collect() }
}

#[test]
fn spending_the_multisig_pushes_both_signatures_then_zero() {
    let a = signature(71);
    let b = signature(72);
    let script = spend_multisig(&a, &b).unwrap();
    let expected = concat(&[&[71], &a.bytes, &[72], &b.bytes, &[0x00]]);
    assert_eq!(bytes(&script), expected);
}

#[test]
fn spending_the_refund_pushes_signature_key_and_one() {
    let a = signature(70);
    let script = spend_refund(&key(KEY_G), &a).unwrap();
    let expected = concat(&[&[70], &a.bytes, &[0x21], &hex(KEY_G), &[0x51]]);
    assert_eq!(bytes(&script), expected);
}

#[test]
fn an_oversized_signature_is_refused() {
    let a = signature(521);
    let b = signature(72);
    assert_eq!(spend_multisig(&a, &b), Err(ScriptError::PushTooLarge));
    assert_eq!(spend_multisig(&b, &a), Err(ScriptError::PushTooLarge));
    assert_eq!(spend_refund(&key(KEY_G), &a), Err(ScriptError::PushTooLarge));
}

#[test]
fn byte_strings_are_ordered_by_their_first_difference() {
    assert!(precedes(&[1, 2, 3], &[1, 2, 4]));
    assert!(!precedes(&[1, 2, 4], &[1, 2, 3]));
    assert!(precedes(&[1, 2, 3], &[1, 2, 3]));
    assert!(precedes(&[0, 0xff], &[1, 0]));
    assert!(!precedes(&[1, 0], &[0, 0xff]));
    assert!(precedes(&[], &[0]));
    assert!(!precedes(&[0], &[]));
    assert!(precedes(&[], &[]));
    assert!(precedes(&[5], &[5, 0]));
    assert!(!precedes(&[5, 0], &[5]));
    assert!(precedes(&hex(KEY_G), &hex(KEY_2G)));
    assert!(!precedes(&hex(KEY_2G), &hex(KEY_G)));
    assert!(precedes(&hex(KEY_2G), &hex(KEY_3G)));
}

#[test]
fn sorted_two_of_two_does_not_depend_on_the_order_given() {
    let ascending = two_of_two_multisig(&key(KEY_G), &key(KEY_2G));
    assert_eq!(sorted_two_of_two_multisig(&key(KEY_G), &key(KEY_2G)), ascending);
    assert_eq!(sorted_two_of_two_multisig(&key(KEY_2G), &key(KEY_G)), ascending);
    let same = two_of_two_multisig(&key(KEY_3G), &key(KEY_3G));
    assert_eq!(sorted_two_of_two_multisig(&key(KEY_3G), &key(KEY_3G)), same);
}

#[test]
fn typed_relative_timelocks_enter_the_script_as_sequence_numbers() {
    assert_eq!(
        relative_timelocked_p2pkh(&key(KEY_G), RelativeTimelock::Blocks(144)),
        csv_p2pkh(&key(KEY_G), 144)
    );
    assert_eq!(
        relative_timelocked_p2pkh(&key(KEY_G), RelativeTimelock::Intervals(5)),
        csv_p2pkh(&key(KEY_G), 0x0040_0005)
    );
    let script = bytes(&relative_timelocked_p2pkh(&key(KEY_G), RelativeTimelock::Intervals(5)));
    assert_eq!(&script[..5], &[0x03, 0x05, 0x00, 0x40, 0xb2]);
}
