use payment_channel::encoding::{
    read_compact_size, read_u16, read_u32, read_u64, write_compact_size, write_u16, write_u32,
    write_u64,
};
use payment_channel::keys::PublicKey;
use payment_channel::script::Script;
use payment_channel::templates::{p2wpkh_output_script, two_of_two_multisig};
use payment_channel::transaction::{OutPoint, Transaction, TxIn, TxOut};
use payment_channel::wire::{read_var_bytes, write_var_bytes};

const KEY_A: &str = "0279be667ef9dcbbac55a06295ce870b07029bfcdb2dce28d959f2815b16f81798";
const KEY_B: &str = "02c6047f9441ed7d6d3045406e95c07cd85c778e4b8cef3ca7abac09b95c709ee5";

fn hex(s: &str) -> Vec<u8> {
    (0..s.len() / 2).map(|i| u8::from_str_radix(&s[2 * i..2 * i + 2], 16).unwrap()).collect()
}

fn key(s: &str) -> PublicKey {
    PublicKey::from_slice(&hex(s)).unwrap()
}

fn compact(n: u64) -> Vec<u8> {
    let mut out = Vec::new();
    write_compact_size(&mut out, n);
    out
}

#[test]
fn fixed_width_numbers_are_little_endian() {
    let mut out = vec![0xee];
    write_u16(&mut out, 0x1234);
    write_u32(&mut out, 0x89ab_cdef);
    write_u64(&mut out, 0x0102_0304_0506_0708);
    assert_eq!(
        out,
        vec![0xee, 0x34, 0x12, 0xef, 0xcd, 0xab, 0x89, 8, 7, 6, 5, 4, 3, 2, 1]
    );
    assert_eq!(read_u16(&out, 1), 0x1234);
    assert_eq!(read_u32(&out, 3), 0x89ab_cdef);
    assert_eq!(read_u64(&out, 7), 0x0102_0304_0506_0708);
}

#[test]
fn extreme_numbers_round_trip() {
    for v in [0u64, 1, 0xff, 0x100, u32::MAX as u64, u32::MAX as u64 + 1, u64::MAX] {
        let mut out = Vec::new();
        write_u64(&mut out, v);
        assert_eq!(out, v.to_le_bytes().to_vec());
        assert_eq!(read_u64(&out, 0), v);
    }
    for v in [0u32, 1, 0xffff, 0x1_0000, u32::MAX] {
        let mut out = Vec::new();
        write_u32(&mut out, v);
        assert_eq!(out, v.to_le_bytes().to_vec());
        assert_eq!(read_u32(&out, 0), v);
    }
}

#[test]
fn compact_sizes_take_the_narrowest_form() {
    assert_eq!(compact(0), vec![0x00]);
    assert_eq!(compact(0xfc), vec![0xfc]);
    assert_eq!(compact(0xfd), vec![0xfd, 0xfd, 0x00]);
    assert_eq!(compact(0xffff), vec![0xfd, 0xff, 0xff]);
    assert_eq!(compact(0x1_0000), vec![0xfe, 0x00, 0x00, 0x01, 0x00]);
    assert_eq!(compact(0xffff_ffff), vec![0xfe, 0xff, 0xff, 0xff, 0xff]);
    assert_eq!(compact(0x1_0000_0000), vec![0xff, 0, 0, 0, 0, 1, 0, 0, 0]);
    assert_eq!(compact(u64::MAX), vec![0xff; 9]);
}

#[test]
fn compact_sizes_round_trip() {
    for n in [0u64, 1, 0xfc, 0xfd, 0xfe, 0xff, 0x100, 0xffff, 0x1_0000, 0xffff_ffff, 0x1_0000_0000, u64::MAX] {
        let mut data = vec![0x77];
        write_compact_size(&mut data, n);
        let end = data.len();
        data.push(0x99);
        assert_eq!(read_compact_size(&data, 1), Some((n, end)));
    }
}

#[test]
fn compact_sizes_in_a_wider_form_are_refused() {
    assert_eq!(read_compact_size(&[0xfd, 0xfc, 0x00], 0), None);
    assert_eq!(read_compact_size(&[0xfd, 0x00, 0x00], 0), None);
    assert_eq!(read_compact_size(&[0xfe, 0xff, 0xff, 0x00, 0x00], 0), None);
    assert_eq!(read_compact_size(&[0xff, 0xff, 0xff, 0xff, 0xff, 0, 0, 0, 0], 0), None);
}

#[test]
fn compact_sizes_that_end_early_are_refused() {
    assert_eq!(read_compact_size(&[], 0), None);
    assert_eq!(read_compact_size(&[0x01], 1), None);
    assert_eq!(read_compact_size(&[0xfd, 0xfd], 0), None);
    assert_eq!(read_compact_size(&[0xfe, 0, 0, 1], 0), None);
    assert_eq!(read_compact_size(&[0xff, 0, 0, 0, 0, 1, 0, 0], 0), None);
}

#[test]
fn byte_strings_stand_behind_their_length() {
    let mut out = Vec::new();
    write_var_bytes(&mut out, &[1, 2, 3]);
    assert_eq!(out, vec![3, 1, 2, 3]);
    assert_eq!(read_var_bytes(&out, 0), Some((vec![1, 2, 3], 4)));
    assert_eq!(read_var_bytes(&out[..3], 0), None);
    let long = vec![5u8; 300];
    let mut out = Vec::new();
    write_var_bytes(&mut out, &long);
    assert_eq!(&out[..3], &[0xfd, 0x2c, 0x01]);
    assert_eq!(read_var_bytes(&out, 0), Some((long, 303)));
}

fn legacy_transaction() -> Transaction {
    Transaction {
        version: 2,
        lock_time: 650_000,
        input: vec![
            TxIn {
                previous_output: OutPoint { txid: [0xab; 32], vout: 1 },
                script_sig: Script::from_bytes(vec![0x51, 0x52]).unwrap(),
                sequence: 0xffff_fffe,
                witness: Vec::new(),
            },
            TxIn {
                previous_output: OutPoint { txid: [0xcd; 32], vout: 0xffff_ffff },
                script_sig: Script::new(),
                sequence: 0,
                witness: Vec::new(),
            },
        ],
        output: vec![
            TxOut { value: 150_000, script_pubkey: two_of_two_multisig(&key(KEY_A), &key(KEY_B)).to_p2wsh() },
            TxOut { value: 0, script_pubkey: Script::new() },
            TxOut { value: u64::MAX, script_pubkey: p2wpkh_output_script(&key(KEY_A)) },
        ],
    }
}

fn witness_transaction() -> Transaction {
    let mut tx = legacy_transaction();
    tx.input[1].witness = vec![Vec::new(), vec![0x30; 71], hex(KEY_A), vec![7u8; 300]];
    tx
}

fn as_bitcoin(tx: &Transaction) -> bitcoin::Transaction {
    bitcoin::Transaction {
        version: bitcoin::transaction::Version(tx.version),
        lock_time: bitcoin::absolute::LockTime::from_consensus(tx.lock_time),
        input: tx
            .input
            .iter()
            .map(|i| bitcoin::TxIn {
                previous_output: bitcoin::OutPoint {
                    txid: bitcoin::hashes::Hash::from_byte_array(i.previous_output.txid),
                    vout: i.previous_output.vout,
                },
                script_sig: bitcoin::ScriptBuf::from_bytes(i.script_sig.as_bytes().to_vec()),
                sequence: bitcoin::Sequence(i.sequence),
                witness: bitcoin::Witness::from_slice(&i.witness),
            })
            .collect(),
        output: tx
            .output
            .iter()
            .map(|o| bitcoin::TxOut {
                value: bitcoin::Amount::from_sat(o.value),
                script_pubkey: bitcoin::ScriptBuf::from_bytes(o.script_pubkey.as_bytes().to_vec()),
            })
            .collect(),
    }
}

#[test]
fn a_small_transaction_has_the_expected_bytes() {
    let tx = Transaction {
        version: 1,
        lock_time: 0x0102_0304,
        input: vec![TxIn {
            previous_output: OutPoint { txid: [0x11; 32], vout: 2 },
            script_sig: Script::from_bytes(vec![0x51]).unwrap(),
            sequence: 0xffff_ffff,
            witness: Vec::new(),
        }],
        output: vec![TxOut {
            value: 150_000,
            script_pubkey: Script::from_bytes(vec![0x00, 0x01, 0xaa]).unwrap(),
        }],
    };
    let mut expected = vec![0x01, 0, 0, 0, 0x01];
    expected.extend_from_slice(&[0x11; 32]);
    expected.extend_from_slice(&[2, 0, 0, 0, 0x01, 0x51, 0xff, 0xff, 0xff, 0xff]);
    expected.extend_from_slice(&[0x01, 0xf0, 0x49, 0x02, 0, 0, 0, 0, 0, 0x03, 0x00, 0x01, 0xaa]);
    expected.extend_from_slice(&[0x04, 0x03, 0x02, 0x01]);
    assert_eq!(tx.serialize(), expected);
    assert_eq!(Transaction::parse(&expected), Some(tx));
}

#[test]
fn a_witness_switches_to_the_extended_format() {
    let tx = Transaction {
        version: 2,
        lock_time: 0,
        input: vec![TxIn {
            previous_output: OutPoint { txid: [0x22; 32], vout: 0 },
            script_sig: Script::new(),
            sequence: 5,
            witness: vec![vec![0xaa, 0xbb], Vec::new()],
        }],
        output: vec![TxOut { value: 1, script_pubkey: Script::new() }],
    };
    let mut expected = vec![0x02, 0, 0, 0, 0x00, 0x01, 0x01];
    expected.extend_from_slice(&[0x22; 32]);
    expected.extend_from_slice(&[0, 0, 0, 0, 0x00, 5, 0, 0, 0]);
    expected.extend_from_slice(&[0x01, 1, 0, 0, 0, 0, 0, 0, 0, 0x00]);
    expected.extend_from_slice(&[0x02, 0x02, 0xaa, 0xbb, 0x00]);
    expected.extend_from_slice(&[0, 0, 0, 0]);
    assert_eq!(tx.serialize(), expected);
    assert_eq!(Transaction::parse(&expected), Some(tx));
}

#[test]
fn serialization_matches_the_bitcoin_crate() {
    for tx in [legacy_transaction(), witness_transaction()] {
        assert_eq!(tx.serialize(), bitcoin::consensus::encode::serialize(&as_bitcoin(&tx)));
    }
}

#[test]
fn parsing_gives_back_what_was_serialized() {
    for tx in [legacy_transaction(), witness_transaction()] {
        let bytes = tx.serialize();
        let parsed = Transaction::parse(&bytes).unwrap();
        assert_eq!(parsed, tx);
        assert_eq!(parsed.serialize(), bytes);
    }
}

#[test]
fn amount_and_script_round_trip() {
    let scripts = [
        Script::new(),
        p2wpkh_output_script(&key(KEY_A)),
        two_of_two_multisig(&key(KEY_A), &key(KEY_B)),
        Script::from_bytes(vec![0x6a; 252]).unwrap(),
        Script::from_bytes(vec![0x6a; 253]).unwrap(),
        Script::from_bytes(vec![0x6a; 10_000]).unwrap(),
    ];
    let amounts = [0u64, 1, 150_000, 2_100_000_000_000_000, u64::MAX];
    for script in &scripts {
        for amount in amounts {
            let mut tx = legacy_transaction();
            tx.output = vec![TxOut { value: amount, script_pubkey: script.clone() }];
            let parsed = Transaction::parse(&tx.serialize()).unwrap();
            assert_eq!(parsed.output.len(), 1);
            assert_eq!(parsed.output[0].value, amount);
            assert_eq!(parsed.output[0].script_pubkey, *script);
            assert_eq!(parsed, tx);
        }
    }
}

#[test]
fn negative_versions_round_trip() {
    for version in [-1i32, i32::MIN, i32::MAX, 0] {
        let mut tx = legacy_transaction();
        tx.version = version;
        let bytes = tx.serialize();
        assert_eq!(&bytes[..4], &version.to_le_bytes());
        assert_eq!(Transaction::parse(&bytes), Some(tx));
    }
}

#[test]
fn parsing_agrees_with_the_bitcoin_crate() {
    for tx in [legacy_transaction(), witness_transaction()] {
        let bytes = bitcoin::consensus::encode::serialize(&as_bitcoin(&tx));
        assert_eq!(Transaction::parse(&bytes), Some(tx));
    }
}

#[test]
fn trailing_bytes_are_refused() {
    for tx in [legacy_transaction(), witness_transaction()] {
        let mut bytes = tx.serialize();
        bytes.push(0);
        assert_eq!(Transaction::parse(&bytes), None);
    }
}

#[test]
fn truncated_bytes_are_refused() {
    for tx in [legacy_transaction(), witness_transaction()] {
        let bytes = tx.serialize();
        for len in 0..bytes.len() {
            assert_eq!(Transaction::parse(&bytes[..len]), None, "prefix of {} bytes", len);
        }
    }
}

#[test]
fn transactions_without_inputs_or_outputs_are_refused() {
    // Version, no inputs: the zero is taken for the marker, and no flag follows.
    assert_eq!(Transaction::parse(&[2, 0, 0, 0, 0, 0, 0, 0, 0, 0]), None);
    let mut no_outputs = vec![2, 0, 0, 0, 1];
    no_outputs.extend_from_slice(&[0x11; 32]);
    no_outputs.extend_from_slice(&[0, 0, 0, 0, 0, 0xff, 0xff, 0xff, 0xff, 0, 0, 0, 0, 0]);
    assert_eq!(Transaction::parse(&no_outputs), None);
}

#[test]
fn the_extended_format_needs_a_witness() {
    let mut bytes = vec![0x02, 0, 0, 0, 0x00, 0x01, 0x01];
    bytes.extend_from_slice(&[0x22; 32]);
    bytes.extend_from_slice(&[0, 0, 0, 0, 0x00, 5, 0, 0, 0]);
    bytes.extend_from_slice(&[0x01, 1, 0, 0, 0, 0, 0, 0, 0, 0x00]);
    bytes.extend_from_slice(&[0x00]);
    bytes.extend_from_slice(&[0, 0, 0, 0]);
    assert_eq!(Transaction::parse(&bytes), None);
    bytes[5] = 0x02;
    assert_eq!(Transaction::parse(&bytes), None);
}

#[test]
fn scripts_beyond_the_limit_are_refused() {
    let mut bytes = vec![1, 0, 0, 0, 1];
    bytes.extend_from_slice(&[0x11; 32]);
    bytes.extend_from_slice(&[0, 0, 0, 0, 0, 0xff, 0xff, 0xff, 0xff, 1]);
    bytes.extend_from_slice(&[0, 0, 0, 0, 0, 0, 0, 0]);
    let mut within = bytes.clone();
    within.extend_from_slice(&[0xfd, 0x10, 0x27]);
    within.extend_from_slice(&vec![0x6a; 10_000]);
    within.extend_from_slice(&[0, 0, 0, 0]);
    assert!(Transaction::parse(&within).is_some());
    let mut beyond = bytes;
    beyond.extend_from_slice(&[0xfd, 0x11, 0x27]);
    beyond.extend_from_slice(&vec![0x6a; 10_001]);
    beyond.extend_from_slice(&[0, 0, 0, 0]);
    assert_eq!(Transaction::parse(&beyond), None);
}

#[test]
fn serialization_without_input_is_still_defined() {
    let tx = Transaction { version: 2, lock_time: 0, input: Vec::new(), output: Vec::new() };
    assert_eq!(tx.serialize(), vec![2, 0, 0, 0, 0, 0, 0, 0, 0, 0]);
}

#[test]
fn transactions_are_cloned_field_for_field() {
    for tx in [legacy_transaction(), witness_transaction()] {
        let copy = tx.clone();
        assert_eq!(copy, tx);
        assert_eq!(copy.serialize(), tx.serialize());
        assert_eq!(tx.input[1].clone(), tx.input[1]);
        assert_eq!(tx.output[0].clone(), tx.output[0]);
    }
    let block = payment_channel::transaction::Block {
        txdata: vec![legacy_transaction(), witness_transaction()],
    };
    assert_eq!(block.clone(), block);
}
