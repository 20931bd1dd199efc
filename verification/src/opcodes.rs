//! Byte values of the script opcodes that the templates use.

use vstd::prelude::*;

verus! {

/// Pushes the empty byte string (the number zero).
pub const OP_0: u8 = 0x00;

/// The next byte holds the length of the data to push.
pub const OP_PUSHDATA1: u8 = 0x4c;

/// The next two bytes hold the length of the data to push.
pub const OP_PUSHDATA2: u8 = 0x4d;

/// The next four bytes hold the length of the data to push.
pub const OP_PUSHDATA4: u8 = 0x4e;

/// Pushes the number -1.
pub const OP_1NEGATE: u8 = 0x4f;

/// Pushes the number 1. The opcodes up to `OP_16` follow it in order:
/// `OP_1 + (n - 1)` pushes `n`.
pub const OP_1: u8 = 0x51;

/// Pushes the number 16.
pub const OP_16: u8 = 0x60;

/// Runs what follows if the top of the stack is true.
pub const OP_IF: u8 = 0x63;

/// Runs what follows if the top of the stack is false.
pub const OP_NOTIF: u8 = 0x64;

/// Starts the other branch.
pub const OP_ELSE: u8 = 0x67;

/// Ends a branch.
pub const OP_ENDIF: u8 = 0x68;

/// Removes the top of the stack.
pub const OP_DROP: u8 = 0x75;

/// Duplicates the top of the stack.
pub const OP_DUP: u8 = 0x76;

/// Swaps the two top items of the stack.
pub const OP_SWAP: u8 = 0x7c;

/// Pushes the length of the top of the stack.
pub const OP_SIZE: u8 = 0x82;

/// Compares the two top items of the stack.
pub const OP_EQUAL: u8 = 0x87;

/// Compares the two top items and fails the script if they differ.
pub const OP_EQUALVERIFY: u8 = 0x88;

/// Replaces the top of the stack by its RIPEMD-160 of SHA-256.
pub const OP_HASH160: u8 = 0xa9;

/// Checks a signature against a public key.
pub const OP_CHECKSIG: u8 = 0xac;

/// Checks signatures against public keys, in the order of the keys.
pub const OP_CHECKMULTISIG: u8 = 0xae;

/// `OP_CHECKLOCKTIMEVERIFY`: absolute timelock.
pub const OP_CLTV: u8 = 0xb1;

/// `OP_CHECKSEQUENCEVERIFY`: relative timelock.
pub const OP_CSV: u8 = 0xb2;

} // verus!
