//! Script bytes and the builder that accumulates them.

use vstd::prelude::*;
use crate::hashes::{hash160, hash160_digest};
use crate::keys::{PublicKey, Signature};
use crate::opcodes::{OP_0, OP_1, OP_1NEGATE, OP_PUSHDATA1, OP_PUSHDATA2, OP_PUSHDATA4};

verus! {

/// Largest data element that a single push may carry.
pub const MAX_SCRIPT_ELEMENT_SIZE: usize = 520;

/// Largest serialized script.
pub const MAX_SCRIPT_SIZE: usize = 10000;

/// The opcode and length bytes that introduce a push of `len` bytes: the
/// length itself below `OP_PUSHDATA1`, else the shortest of the one-, two-
/// and four-byte length forms, little-endian.
pub open spec fn push_prefix(len: nat) -> Seq<u8> {
    if len < 0x4c {
        seq![len as u8]
    } else if len < 0x100 {
        seq![OP_PUSHDATA1, len as u8]
    } else if len < 0x10000 {
        seq![OP_PUSHDATA2, (len % 0x100) as u8, (len / 0x100) as u8]
    } else {
        seq![
            OP_PUSHDATA4,
            (len % 0x100) as u8,
            ((len / 0x100) % 0x100) as u8,
            ((len / 0x10000) % 0x100) as u8,
            ((len / 0x1000000) % 0x100) as u8,
        ]
    }
}

/// The bytes of a push of `data`: prefix, then the data.
pub open spec fn push_data(data: Seq<u8>) -> Seq<u8> {
    push_prefix(data.len()) + data
}

/// Appends to `out` the prefix of a push of `len` bytes.
pub fn write_push_prefix(out: &mut Vec<u8>, len: u32)
    ensures
        final(out)@ == old(out)@ + push_prefix(len as nat),
{
    if len < 0x4c {
        out.push(len as u8);
    } else if len < 0x100 {
        out.push(OP_PUSHDATA1);
        out.push(len as u8);
    } else if len < 0x10000 {
        out.push(OP_PUSHDATA2);
        out.push((len % 0x100) as u8);
        out.push((len / 0x100) as u8);
    } else {
        out.push(OP_PUSHDATA4);
        out.push((len % 0x100) as u8);
        out.push(((len / 0x100) % 0x100) as u8);
        out.push(((len / 0x10000) % 0x100) as u8);
        out.push((len / 0x1000000) as u8);
    }
}

/// Appends `data` to `out`.
pub fn append_slice(out: &mut Vec<u8>, data: &[u8])
    ensures
        final(out)@ == old(out)@ + data@,
{
    let mut i: usize = 0;
    while i < data.len()
        invariant
            i <= data.len(),
            out@ == old(out)@ + data@.subrange(0, i as int),
        decreases data.len() - i,
    {
        out.push(data[i]);
        i = i + 1;
    }
}

/// Whether `a` and `b` hold the same bytes.
pub fn bytes_equal(a: &[u8], b: &[u8]) -> (same: bool)
    ensures
        same == (a@ == b@),
{
    if a.len() != b.len() {
        return false;
    }
    let mut i: usize = 0;
    while i < a.len()
        invariant
            i <= a.len(),
            a@.len() == b@.len(),
            a@.subrange(0, i as int) == b@.subrange(0, i as int),
        decreases a.len() - i,
    {
        if a[i] != b[i] {
            return false;
        }
        i = i + 1;
    }
    proof {
        assert(a@ =~= a@.subrange(0, a@.len() as int));
        assert(b@ =~= b@.subrange(0, b@.len() as int));
    }
    true
}

/// The absolute value of `n`.
pub open spec fn magnitude(n: int) -> nat {
    if n < 0 {
        (-n) as nat
    } else {
        n as nat
    }
}

/// The base-256 digits of `m`, least significant first, without a leading
/// (that is, trailing) zero digit; empty for zero.
pub open spec fn magnitude_bytes(m: nat) -> Seq<u8>
    decreases m,
{
    if m == 0 {
        Seq::empty()
    } else {
        seq![(m % 256) as u8] + magnitude_bytes(m / 256)
    }
}

/// The script number `n` as bytes: little-endian sign and magnitude, the sign
/// in the top bit of the last byte, in the fewest bytes. Zero is the empty
/// string. Where the magnitude's top digit already uses the top bit, one more
/// byte carries the sign.
pub open spec fn script_num_bytes(n: int) -> Seq<u8> {
    if n == 0 {
        Seq::empty()
    } else {
        let digits = magnitude_bytes(magnitude(n));
        let top = digits.last();
        let sign: u8 = if n < 0 { 0x80 } else { 0 };
        if top >= 0x80 {
            digits.push(sign)
        } else {
            digits.drop_last().push((top + sign) as u8)
        }
    }
}

/// The number that `bytes` stand for as base-256 digits, least significant
/// first.
pub open spec fn le_nat(bytes: Seq<u8>) -> nat
    decreases bytes.len(),
{
    if bytes.len() == 0 {
        0
    } else {
        bytes[0] as nat + 256 * le_nat(bytes.drop_first())
    }
}

/// The number that the script-number bytes `bytes` stand for: the top bit
/// of the last byte is the sign, all other bits are the magnitude.
pub open spec fn script_num_value(bytes: Seq<u8>) -> int {
    if bytes.len() == 0 {
        0
    } else {
        let top = bytes.last();
        let whole = le_nat(bytes.drop_last()) + pow256((bytes.len() - 1) as nat) * (top % 128);
        if top >= 128 {
            -whole
        } else {
            whole
        }
    }
}

/// Whether script-number bytes have no byte to spare: the last byte holds
/// magnitude, or it is there because the byte before it uses its top bit.
pub open spec fn script_num_minimal(bytes: Seq<u8>) -> bool {
    bytes.len() == 0 || bytes.last() % 128 != 0 || (bytes.len() >= 2 && bytes[bytes.len() - 2]
        >= 128)
}

/// 256 to the power `k`.
pub open spec fn pow256(k: nat) -> nat
    decreases k,
{
    if k == 0 {
        1
    } else {
        256 * pow256((k - 1) as nat)
    }
}

/// A magnitude below 256 to the `k` has at most `k` digits.
pub proof fn lemma_magnitude_len(m: nat, k: nat)
    requires
        m < pow256(k),
    ensures
        magnitude_bytes(m).len() <= k,
    decreases k,
{
    if m > 0 {
        lemma_magnitude_len(m / 256, (k - 1) as nat);
    }
}

/// One more digit at the top adds that digit times the power of its place.
pub proof fn lemma_le_nat_push(bytes: Seq<u8>, top: u8)
    ensures
        le_nat(bytes.push(top)) == le_nat(bytes) + pow256(bytes.len()) * top,
    decreases bytes.len(),
{
    let all = bytes.push(top);
    if bytes.len() == 0 {
        assert(le_nat(all.drop_first()) == 0);
        assert(pow256(0) * top == top) by (nonlinear_arith)
            requires
                pow256(0) == 1,
        ;
    } else {
        let rest = bytes.drop_first();
        assert(all.drop_first() =~= rest.push(top));
        lemma_le_nat_push(rest, top);
        let place = pow256(rest.len());
        assert(256 * (place * top) == (256 * place) * top) by (nonlinear_arith);
    }
}

/// The digits of a magnitude stand for that magnitude, and the top digit of
/// a magnitude that is not zero is not zero.
pub proof fn lemma_magnitude_value(m: nat)
    ensures
        le_nat(magnitude_bytes(m)) == m,
        m > 0 ==> magnitude_bytes(m).len() >= 1 && magnitude_bytes(m).last() != 0,
    decreases m,
{
    if m > 0 {
        let digits = magnitude_bytes(m);
        let rest = magnitude_bytes(m / 256);
        lemma_magnitude_value(m / 256);
        assert(digits.drop_first() =~= rest);
    }
}

/// The bytes of a script number stand for that number, and they are the
/// fewest that do: no byte of them is to spare.
pub proof fn lemma_script_num_round_trip(n: int)
    ensures
        script_num_value(script_num_bytes(n)) == n,
        script_num_minimal(script_num_bytes(n)),
{
    if n != 0 {
        let digits = magnitude_bytes(magnitude(n));
        lemma_magnitude_value(magnitude(n));
        let top = digits.last();
        let bytes = script_num_bytes(n);
        if top >= 0x80 {
            assert(bytes.drop_last() =~= digits);
            assert(pow256(digits.len()) * 0 == 0) by (nonlinear_arith);
        } else {
            let low = digits.drop_last();
            assert(bytes.drop_last() =~= low);
            assert(low.push(top) =~= digits);
            lemma_le_nat_push(low, top);
        }
    }
}

/// A script number of 64 bits has at most nine bytes, and none only for zero.
pub proof fn lemma_script_num_len(n: int)
    requires
        i64::MIN <= n <= i64::MAX,
    ensures
        script_num_bytes(n).len() <= 9,
        n != 0 ==> script_num_bytes(n).len() >= 1,
{
    if n != 0 {
        assert(pow256(8) == 0x1_0000_0000_0000_0000) by {
            reveal_with_fuel(pow256, 9);
        }
        lemma_magnitude_len(magnitude(n), 8);
    }
}

/// A push of a 64-bit number takes between one and ten bytes.
pub proof fn lemma_push_int_len(n: int)
    requires
        i64::MIN <= n <= i64::MAX,
    ensures
        1 <= push_int_bytes(n).len() <= 10,
{
    lemma_script_num_len(n);
}

/// Encodes `n` as a script number.
pub fn script_num_encode(n: i64) -> (out: Vec<u8>)
    ensures
        out@ == script_num_bytes(n as int),
        script_num_value(out@) == n,
        script_num_minimal(out@),
{
    proof {
        lemma_script_num_round_trip(n as int);
    }
    let mut out: Vec<u8> = Vec::new();
    if n == 0 {
        return out;
    }
    let negative: bool = n < 0;
    let whole: u64 = if n >= 0 {
        n as u64
    } else if n == i64::MIN {
        0x8000_0000_0000_0000u64
    } else {
        (-n) as u64
    };
    let mut rest: u64 = whole;
    while rest > 0xff
        invariant
            rest > 0,
            magnitude_bytes(whole as nat) == out@ + magnitude_bytes(rest as nat),
        decreases rest,
    {
        out.push((rest % 256) as u8);
        rest = rest / 256;
    }
    proof {
        assert(magnitude_bytes((rest / 256) as nat) =~= Seq::<u8>::empty());
        assert(magnitude_bytes(whole as nat) =~= out@.push(rest as u8));
    }
    if rest >= 0x80 {
        out.push(rest as u8);
        out.push(if negative { 0x80u8 } else { 0u8 });
    } else {
        out.push(if negative { (rest + 0x80) as u8 } else { rest as u8 });
    }
    out
}

/// The bytes by which a script pushes the number `n`: a single opcode for
/// -1 and for 0 to 16 (`OP_1NEGATE`, `OP_0`, `OP_1` to `OP_16`), else a push
/// of the script number.
pub open spec fn push_int_bytes(n: int) -> Seq<u8> {
    if n == 0 {
        seq![OP_0]
    } else if n == -1 {
        seq![OP_1NEGATE]
    } else if 1 <= n <= 16 {
        seq![(OP_1 + (n - 1)) as u8]
    } else {
        push_data(script_num_bytes(n))
    }
}

/// A number from 17 to 127 is pushed as one byte of data.
pub proof fn lemma_push_int_one_byte(n: int)
    requires
        17 <= n < 128,
    ensures
        push_int_bytes(n) == seq![1u8, n as u8],
{
    reveal_with_fuel(magnitude_bytes, 3);
}

/// Why a script could not be built.
#[derive(Clone, Copy, Debug, PartialEq, Eq, Structural)]
pub enum ScriptError {
    /// A push of more than `MAX_SCRIPT_ELEMENT_SIZE` bytes.
    PushTooLarge,
    /// A script of more than `MAX_SCRIPT_SIZE` bytes.
    ScriptTooLarge,
}

/// What a builder holds: the bytes so far, or the first failure.
pub type BuildState = Result<Seq<u8>, ScriptError>;

/// The bytes `bytes` as a finished state: themselves, unless they exceed the
/// size limit.
pub open spec fn sized(bytes: Seq<u8>) -> BuildState {
    if bytes.len() <= MAX_SCRIPT_SIZE {
        Ok(bytes)
    } else {
        Err(ScriptError::ScriptTooLarge)
    }
}

/// What the outcome of a build holds: the script's bytes, or the failure.
pub open spec fn built(res: Result<Script, ScriptError>) -> BuildState {
    match res {
        Ok(script) => Ok(script@),
        Err(e) => Err(e),
    }
}

/// `state` after appending the bytes `more` as they are.
pub open spec fn append_bytes(state: BuildState, more: Seq<u8>) -> BuildState {
    match state {
        Ok(bytes) => if bytes.len() + more.len() <= MAX_SCRIPT_SIZE {
            Ok(bytes + more)
        } else {
            Err(ScriptError::ScriptTooLarge)
        },
        Err(e) => Err(e),
    }
}

/// `state` after appending a push of `data`.
pub open spec fn append_push(state: BuildState, data: Seq<u8>) -> BuildState {
    match state {
        Ok(bytes) => if data.len() <= MAX_SCRIPT_ELEMENT_SIZE {
            append_bytes(state, push_data(data))
        } else {
            Err(ScriptError::PushTooLarge)
        },
        Err(e) => Err(e),
    }
}

/// A finished script: at most `MAX_SCRIPT_SIZE` bytes of opcodes and pushes.
#[derive(Debug, PartialEq, Eq)]
pub struct Script {
    bytes: Vec<u8>,
}

impl View for Script {
    type V = Seq<u8>;

    closed spec fn view(&self) -> Seq<u8> {
        self.bytes@
    }
}

impl Clone for Script {
    fn clone(&self) -> (copy: Script)
        ensures
            copy@ == self@,
    {
        proof {
            use_type_invariant(self);
        }
        let mut bytes: Vec<u8> = Vec::new();
        append_slice(&mut bytes, self.bytes.as_slice());
        Script { bytes }
    }
}

impl Script {
    #[verifier::type_invariant]
    spec fn within_limit(self) -> bool {
        self.bytes@.len() <= MAX_SCRIPT_SIZE
    }

    /// The empty script.
    pub fn new() -> (script: Script)
        ensures
            script@ == Seq::<u8>::empty(),
    {
        Script { bytes: Vec::new() }
    }

    /// The script with the given bytes; fails where they exceed the limit.
    pub fn from_bytes(bytes: Vec<u8>) -> (res: Result<Script, ScriptError>)
        ensures
            built(res) == sized(bytes@),
    {
        if bytes.len() > MAX_SCRIPT_SIZE {
            Err(ScriptError::ScriptTooLarge)
        } else {
            Ok(Script { bytes })
        }
    }

    /// The bytes of the script.
    pub fn as_bytes(&self) -> (bytes: &[u8])
        ensures
            bytes@ == self@,
            bytes@.len() <= MAX_SCRIPT_SIZE,
    {
        proof {
            use_type_invariant(self);
        }
        self.bytes.as_slice()
    }

    /// Whether the two scripts hold the same bytes.
    pub fn same_as(&self, other: &Script) -> (same: bool)
        ensures
            same == (self@ == other@),
    {
        bytes_equal(self.bytes.as_slice(), other.bytes.as_slice())
    }

    /// The number of bytes.
    pub fn len(&self) -> (n: usize)
        ensures
            n == self@.len(),
            n <= MAX_SCRIPT_SIZE,
    {
        proof {
            use_type_invariant(self);
        }
        self.bytes.len()
    }
}

/// Accumulates opcodes and pushes into a script. A step that cannot be
/// encoded puts the builder into a failed state, which later steps keep and
/// `into_script` reports.
pub struct Builder {
    bytes: Vec<u8>,
    failure: Option<ScriptError>,
}

impl View for Builder {
    type V = BuildState;

    closed spec fn view(&self) -> BuildState {
        match self.failure {
            Some(e) => Err(e),
            None => Ok(self.bytes@),
        }
    }
}

impl Builder {
    #[verifier::type_invariant]
    spec fn within_limit(self) -> bool {
        self.failure is None ==> self.bytes@.len() <= MAX_SCRIPT_SIZE
    }

    /// A builder that holds the empty script.
    pub fn new() -> (builder: Builder)
        ensures
            builder@ == Ok::<Seq<u8>, ScriptError>(Seq::empty()),
    {
        Builder { bytes: Vec::new(), failure: None }
    }

    fn append(self, more: &[u8]) -> (builder: Builder)
        ensures
            builder@ == append_bytes(self@, more@),
    {
        proof {
            use_type_invariant(&self);
        }
        match self.failure {
            Some(_) => self,
            None => {
                if more.len() > MAX_SCRIPT_SIZE - self.bytes.len() {
                    Builder { bytes: self.bytes, failure: Some(ScriptError::ScriptTooLarge) }
                } else {
                    let mut bytes: Vec<u8> = self.bytes;
                    append_slice(&mut bytes, more);
                    Builder { bytes, failure: None }
                }
            },
        }
    }

    /// Appends the opcode `opcode`.
    pub fn push_opcode(self, opcode: u8) -> (builder: Builder)
        ensures
            builder@ == append_bytes(self@, seq![opcode]),
    {
        let one: [u8; 1] = [opcode];
        assert(one@ =~= seq![opcode]);
        self.append(one.as_slice())
    }

    /// Appends a push of `data`.
    pub fn push_slice(self, data: &[u8]) -> (builder: Builder)
        ensures
            builder@ == append_push(self@, data@),
    {
        match self.failure {
            Some(_) => self,
            None => {
                if data.len() > MAX_SCRIPT_ELEMENT_SIZE {
                    Builder { bytes: self.bytes, failure: Some(ScriptError::PushTooLarge) }
                } else {
                    let mut encoded: Vec<u8> = Vec::new();
                    write_push_prefix(&mut encoded, data.len() as u32);
                    append_slice(&mut encoded, data);
                    self.append(encoded.as_slice())
                }
            },
        }
    }

    /// Appends the shortest push of the number `n`.
    pub fn push_int(self, n: i64) -> (builder: Builder)
        ensures
            builder@ == append_bytes(self@, push_int_bytes(n as int)),
    {
        if n == 0 {
            self.push_opcode(OP_0)
        } else if n == -1 {
            self.push_opcode(OP_1NEGATE)
        } else if 1 <= n && n <= 16 {
            self.push_opcode(OP_1 + (n - 1) as u8)
        } else {
            let number: Vec<u8> = script_num_encode(n);
            proof {
                lemma_script_num_len(n as int);
            }
            self.push_slice(number.as_slice())
        }
    }

    /// Appends a push of the 33 bytes of `key`.
    pub fn push_key(self, key: &PublicKey) -> (builder: Builder)
        ensures
            builder@ == append_bytes(self@, push_data(key@)),
    {
        self.push_slice(key.bytes.as_slice())
    }

    /// Appends a push of the 20-byte hash of `key`.
    pub fn push_pubkey_hash(self, key: &PublicKey) -> (builder: Builder)
        ensures
            builder@ == append_bytes(self@, push_data(hash160(key@))),
            hash160(key@).len() == 20,
    {
        let hash: [u8; 20] = hash160_digest(key.bytes.as_slice());
        self.push_slice(hash.as_slice())
    }

    /// Appends a push of `signature`.
    pub fn push_signature(self, signature: &Signature) -> (builder: Builder)
        ensures
            builder@ == append_push(self@, signature@),
    {
        self.push_slice(signature.bytes.as_slice())
    }

    /// Appends the bytes of `script` as they are, as the body of a branch.
    pub fn push_script(self, script: &Script) -> (builder: Builder)
        ensures
            builder@ == append_bytes(self@, script@),
    {
        self.append(script.as_bytes())
    }

    /// The script built, or the first failure.
    pub fn into_script(self) -> (res: Result<Script, ScriptError>)
        ensures
            built(res) == self@,
    {
        proof {
            use_type_invariant(&self);
        }
        match self.failure {
            Some(e) => Err(e),
            None => Script::from_bytes(self.bytes),
        }
    }
}

} // verus!
