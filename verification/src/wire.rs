//! The wire format of transactions: serialization, parsing, and the law that
//! parsing gives back what was serialized.

use vstd::prelude::*;
use crate::encoding::{
    compact_size, le_bytes_u32, le_bytes_u64, le_u32_at, le_u64_at, lemma_compact_size_parsed,
    lemma_compact_size_round_trip, lemma_le_u32_at_skip, lemma_le_u32_bytes_at,
    lemma_le_u32_round_trip, lemma_le_u64_bytes_at, lemma_le_u64_round_trip, parse_compact_size,
};
use crate::encoding::{
    lemma_le_u64_at_skip, read_compact_size, read_u32, read_u64, write_compact_size, write_u32,
    write_u64,
};
use crate::script::{append_slice, Script, MAX_SCRIPT_SIZE};
use crate::transaction::{
    inputs_view, outputs_view, witness_view, OutPoint, OutPointView, Transaction,
    TransactionView, TxIn, TxInView, TxOut, TxOutView,
};

verus! {

/// What a parser of one item gives for the bytes ahead: the item and the
/// count of bytes it took, or nothing.
pub type Parsed<T> = Option<(T, int)>;

/// The serializations of the items of `items`, one after the other.
pub open spec fn serialize_list<T>(item: spec_fn(T) -> Seq<u8>, items: Seq<T>) -> Seq<u8>
    decreases items.len(),
{
    if items.len() == 0 {
        Seq::empty()
    } else {
        item(items[0]) + serialize_list(item, items.drop_first())
    }
}

/// `count` items parsed one after the other from the start of `s`.
pub open spec fn parse_list<T>(item: spec_fn(Seq<u8>) -> Parsed<T>, s: Seq<u8>, count: nat) -> Parsed<
    Seq<T>,
>
    decreases count,
{
    if count == 0 {
        Some((Seq::empty(), 0))
    } else {
        match item(s) {
            Some((first, taken)) => match parse_list(item, s.skip(taken), (count - 1) as nat) {
                Some((others, more)) => Some((seq![first] + others, taken + more)),
                None => None,
            },
            None => None,
        }
    }
}

/// Whether parsing with `parse` gives back `normal(x)` for the item `x` that
/// `serialize` wrote, whatever follows it. `normal` drops what `serialize`
/// leaves out.
pub open spec fn inverts<T>(
    parse: spec_fn(Seq<u8>) -> Parsed<T>,
    serialize: spec_fn(T) -> Seq<u8>,
    normal: spec_fn(T) -> T,
    x: T,
) -> bool {
    forall|rest: Seq<u8>| #[trigger]
        parse(serialize(x) + rest) == Some((normal(x), serialize(x).len() as int))
}

/// A list of items reads back as written, whatever follows it, where each
/// of its items does.
pub proof fn lemma_list_round_trip<T>(
    parse: spec_fn(Seq<u8>) -> Parsed<T>,
    serialize: spec_fn(T) -> Seq<u8>,
    normal: spec_fn(T) -> T,
    items: Seq<T>,
    rest: Seq<u8>,
)
    requires
        forall|i: int|
            0 <= i < items.len() ==> inverts(parse, serialize, normal, #[trigger] items[i]),
    ensures
        parse_list(parse, serialize_list(serialize, items) + rest, items.len()) == Some(
            (items.map_values(normal), serialize_list(serialize, items).len() as int),
        ),
    decreases items.len(),
{
    if items.len() > 0 {
        let first = items[0];
        let others = items.drop_first();
        let tail = serialize_list(serialize, others) + rest;
        let all = serialize_list(serialize, items) + rest;
        assert(all =~= serialize(first) + tail);
        assert(all.skip(serialize(first).len() as int) =~= tail);
        lemma_list_round_trip(parse, serialize, normal, others, rest);
    }
}

/// A byte string behind its length: the compact size of the length, then
/// the bytes.
pub open spec fn var_bytes(bytes: Seq<u8>) -> Seq<u8> {
    compact_size(bytes.len() as u64) + bytes
}

/// The byte string at the start of `s`, behind its length.
pub open spec fn parse_var_bytes(s: Seq<u8>) -> Parsed<Seq<u8>> {
    match parse_compact_size(s) {
        Some((len, taken)) => if taken + len <= s.len() {
            Some((s.subrange(taken, taken + len), taken + len))
        } else {
            None
        },
        None => None,
    }
}

/// The script at the start of `s`: a byte string behind its length that is
/// within the size limit of scripts.
pub open spec fn parse_script(s: Seq<u8>) -> Parsed<Seq<u8>> {
    match parse_var_bytes(s) {
        Some((bytes, taken)) => if bytes.len() <= MAX_SCRIPT_SIZE {
            Some((bytes, taken))
        } else {
            None
        },
        None => None,
    }
}

/// A byte string reads back as written, whatever follows it.
pub proof fn lemma_var_bytes_round_trip(bytes: Seq<u8>, rest: Seq<u8>)
    requires
        bytes.len() <= u64::MAX,
    ensures
        parse_var_bytes(var_bytes(bytes) + rest) == Some((bytes, var_bytes(bytes).len() as int)),
{
    let size = compact_size(bytes.len() as u64);
    let all = var_bytes(bytes) + rest;
    lemma_compact_size_round_trip(bytes.len() as u64, bytes + rest);
    assert(all =~= size + (bytes + rest));
}

/// An input without its witness: the outpoint as transaction id and index,
/// the unlocking script behind its length, and the sequence number.
pub open spec fn serialize_input(input: TxInView) -> Seq<u8> {
    input.previous_output.txid + le_bytes_u32(input.previous_output.vout) + var_bytes(
        input.script_sig,
    ) + le_bytes_u32(input.sequence)
}

/// The input at the start of `s`, with an empty witness.
pub open spec fn parse_input(s: Seq<u8>) -> Parsed<TxInView> {
    if s.len() < 36 {
        None
    } else {
        match parse_script(s.skip(36)) {
            Some((script_sig, taken)) => if 36 + taken + 4 <= s.len() {
                Some(
                    (
                        TxInView {
                            previous_output: OutPointView {
                                txid: s.subrange(0, 32),
                                vout: le_u32_at(s, 32),
                            },
                            script_sig,
                            sequence: le_u32_at(s, 36 + taken),
                            witness: Seq::empty(),
                        },
                        36 + taken + 4,
                    ),
                )
            } else {
                None
            },
            None => None,
        }
    }
}

/// An output: the amount in eight bytes, then the locking script behind its
/// length.
pub open spec fn serialize_output(output: TxOutView) -> Seq<u8> {
    le_bytes_u64(output.value) + var_bytes(output.script_pubkey)
}

/// The output at the start of `s`.
pub open spec fn parse_output(s: Seq<u8>) -> Parsed<TxOutView> {
    if s.len() < 8 {
        None
    } else {
        match parse_script(s.skip(8)) {
            Some((script_pubkey, taken)) => Some(
                (TxOutView { value: le_u64_at(s, 0), script_pubkey }, 8 + taken),
            ),
            None => None,
        }
    }
}

/// The witness of one input: the count of its items, then each item behind
/// its length.
pub open spec fn serialize_witness(witness: Seq<Seq<u8>>) -> Seq<u8> {
    compact_size(witness.len() as u64) + serialize_list(|item: Seq<u8>| var_bytes(item), witness)
}

/// The witness at the start of `s`.
pub open spec fn parse_witness(s: Seq<u8>) -> Parsed<Seq<Seq<u8>>> {
    match parse_compact_size(s) {
        Some((count, taken)) => match parse_list(
            |t: Seq<u8>| parse_var_bytes(t),
            s.skip(taken),
            count as nat,
        ) {
            Some((items, more)) => Some((items, taken + more)),
            None => None,
        },
        None => None,
    }
}

/// Whether an input can be written and read back: a transaction id of 32
/// bytes, a script within the size limit, and counts and lengths that fit
/// into 64 bits.
pub open spec fn input_valid(input: TxInView) -> bool {
    &&& input.previous_output.txid.len() == 32
    &&& input.script_sig.len() <= MAX_SCRIPT_SIZE
    &&& witness_valid(input.witness)
}

/// Whether an output can be written and read back: a script within the
/// size limit.
pub open spec fn output_valid(output: TxOutView) -> bool {
    output.script_pubkey.len() <= MAX_SCRIPT_SIZE
}

/// `input` without its witness.
pub open spec fn without_witness(input: TxInView) -> TxInView {
    TxInView { witness: Seq::empty(), ..input }
}

/// An input reads back as written, without its witness, whatever follows.
pub proof fn lemma_input_round_trip(input: TxInView, rest: Seq<u8>)
    requires
        input_valid(input),
    ensures
        parse_input(serialize_input(input) + rest) == Some(
            (without_witness(input), serialize_input(input).len() as int),
        ),
{
    let all = serialize_input(input) + rest;
    let vout = le_bytes_u32(input.previous_output.vout);
    let script = var_bytes(input.script_sig);
    let sequence = le_bytes_u32(input.sequence);
    lemma_le_u32_round_trip(input.previous_output.vout, script + sequence + rest);
    lemma_var_bytes_round_trip(input.script_sig, sequence + rest);
    lemma_le_u32_round_trip(input.sequence, rest);
    assert(all.subrange(0, 32) =~= input.previous_output.txid);
    assert(all.skip(32) =~= vout + (script + sequence + rest));
    lemma_le_u32_at_skip(all, 32, 0);
    assert(all.skip(36) =~= script + (sequence + rest));
    let after: int = (36 + script.len()) as int;
    assert(all.skip(after) =~= sequence + rest);
    lemma_le_u32_at_skip(all, after, 0);
}

/// An output reads back as written, whatever follows.
pub proof fn lemma_output_round_trip(output: TxOutView, rest: Seq<u8>)
    requires
        output_valid(output),
    ensures
        parse_output(serialize_output(output) + rest) == Some(
            (output, serialize_output(output).len() as int),
        ),
{
    let all = serialize_output(output) + rest;
    let script = var_bytes(output.script_pubkey);
    lemma_le_u64_round_trip(output.value, script + rest);
    lemma_var_bytes_round_trip(output.script_pubkey, rest);
    assert(all =~= le_bytes_u64(output.value) + (script + rest));
    assert(all.skip(8) =~= script + rest);
}

/// A witness reads back as written, whatever follows.
pub proof fn lemma_witness_round_trip(witness: Seq<Seq<u8>>, rest: Seq<u8>)
    requires
        witness.len() <= u64::MAX,
        forall|i: int| 0 <= i < witness.len() ==> (#[trigger] witness[i]).len() <= u64::MAX,
    ensures
        parse_witness(serialize_witness(witness) + rest) == Some(
            (witness, serialize_witness(witness).len() as int),
        ),
{
    let parse = |t: Seq<u8>| parse_var_bytes(t);
    let serialize = |item: Seq<u8>| var_bytes(item);
    let normal = |item: Seq<u8>| item;
    let count = compact_size(witness.len() as u64);
    let items = serialize_list(serialize, witness);
    let all = serialize_witness(witness) + rest;
    lemma_compact_size_round_trip(witness.len() as u64, items + rest);
    assert(all =~= count + (items + rest));
    assert(all.skip(count.len() as int) =~= items + rest);
    assert forall|i: int| 0 <= i < witness.len() implies inverts(
        parse,
        serialize,
        normal,
        #[trigger] witness[i],
    ) by {
        let item = witness[i];
        assert forall|more: Seq<u8>| #[trigger]
            parse(serialize(item) + more) == Some((normal(item), serialize(item).len() as int)) by {
            lemma_var_bytes_round_trip(item, more);
        }
    }
    lemma_list_round_trip(parse, serialize, normal, witness, rest);
}

/// The bits of a version number: its two's complement in 32 bits.
pub open spec fn version_bits(version: i32) -> u32 {
    if version >= 0 {
        version as u32
    } else {
        (version + 0x1_0000_0000) as u32
    }
}

/// The version number with the given bits.
pub open spec fn version_of_bits(bits: u32) -> i32 {
    if bits < 0x8000_0000 {
        bits as i32
    } else {
        (bits - 0x1_0000_0000) as i32
    }
}

/// Whether one of the inputs has a witness. A transaction with a witness is
/// written in the extended format.
pub open spec fn has_witness(inputs: Seq<TxInView>) -> bool {
    exists|i: int| 0 <= i < inputs.len() && (#[trigger] inputs[i]).witness.len() > 0
}

/// The witnesses of the inputs, in the order of the inputs.
pub open spec fn witnesses(inputs: Seq<TxInView>) -> Seq<Seq<Seq<u8>>> {
    inputs.map_values(|x: TxInView| x.witness)
}

/// The inputs `inputs`, each with the witness of the same index.
pub open spec fn attach_witnesses(
    inputs: Seq<TxInView>,
    witnesses: Seq<Seq<Seq<u8>>>,
) -> Seq<TxInView> {
    Seq::new(inputs.len(), |i: int| TxInView { witness: witnesses[i], ..inputs[i] })
}

/// The inputs of a transaction: their count, then each input.
pub open spec fn serialize_inputs(inputs: Seq<TxInView>) -> Seq<u8> {
    compact_size(inputs.len() as u64) + serialize_list(|x: TxInView| serialize_input(x), inputs)
}

/// The outputs of a transaction: their count, then each output.
pub open spec fn serialize_outputs(outputs: Seq<TxOutView>) -> Seq<u8> {
    compact_size(outputs.len() as u64) + serialize_list(|x: TxOutView| serialize_output(x), outputs)
}

/// The witnesses of a transaction: one for each input, without a count.
pub open spec fn serialize_witnesses(inputs: Seq<TxInView>) -> Seq<u8> {
    serialize_list(|w: Seq<Seq<u8>>| serialize_witness(w), witnesses(inputs))
}

/// The bytes of a transaction: the version; in the extended format the
/// marker 0 and the flag 1; the inputs; the outputs; in the extended format
/// the witnesses; the lock time. The extended format is used where an input
/// has a witness, and only there.
pub open spec fn serialize_transaction(tx: TransactionView) -> Seq<u8> {
    let extended = has_witness(tx.input);
    le_bytes_u32(version_bits(tx.version)) + (if extended {
        seq![0u8, 1u8]
    } else {
        Seq::empty()
    }) + serialize_inputs(tx.input) + serialize_outputs(tx.output) + (if extended {
        serialize_witnesses(tx.input)
    } else {
        Seq::empty()
    }) + le_bytes_u32(tx.lock_time)
}

/// The inputs at the start of `s`, behind their count, with empty witnesses.
pub open spec fn parse_inputs(s: Seq<u8>) -> Parsed<Seq<TxInView>> {
    match parse_compact_size(s) {
        Some((count, taken)) => match parse_list(
            |t: Seq<u8>| parse_input(t),
            s.skip(taken),
            count as nat,
        ) {
            Some((items, more)) => Some((items, taken + more)),
            None => None,
        },
        None => None,
    }
}

/// The outputs at the start of `s`, behind their count.
pub open spec fn parse_outputs(s: Seq<u8>) -> Parsed<Seq<TxOutView>> {
    match parse_compact_size(s) {
        Some((count, taken)) => match parse_list(
            |t: Seq<u8>| parse_output(t),
            s.skip(taken),
            count as nat,
        ) {
            Some((items, more)) => Some((items, taken + more)),
            None => None,
        },
        None => None,
    }
}

/// One witness for each of `count` inputs, from the start of `s`.
pub open spec fn parse_witnesses(s: Seq<u8>, count: nat) -> Parsed<Seq<Seq<Seq<u8>>>> {
    parse_list(|t: Seq<u8>| parse_witness(t), s, count)
}

/// What follows version, marker and flag, to the end of `s`: inputs,
/// outputs, in the extended format one witness for each input, and the lock
/// time.
pub open spec fn parse_body(s: Seq<u8>, extended: bool) -> Option<
    (Seq<TxInView>, Seq<TxOutView>, u32),
> {
    match parse_inputs(s) {
        Some((inputs, a)) => match parse_outputs(s.skip(a)) {
            Some((outputs, b)) => {
                let after = s.skip(a + b);
                if extended {
                    match parse_witnesses(after, inputs.len()) {
                        Some((stacks, c)) => if after.len() == c + 4 {
                            Some((attach_witnesses(inputs, stacks), outputs, le_u32_at(after, c)))
                        } else {
                            None
                        },
                        None => None,
                    }
                } else if after.len() == 4 {
                    Some((inputs, outputs, le_u32_at(after, 0)))
                } else {
                    None
                }
            },
            None => None,
        },
        None => None,
    }
}

/// The transaction that the bytes `s` stand for, all of them. A zero byte
/// after the version is the marker of the extended format, which the flag 1
/// has to follow. Nothing is read from bytes that hold a transaction
/// without an input or without an output, a number that is not in its
/// narrowest form, a script beyond the size limit, the extended format
/// without a witness, or anything after the lock time.
pub open spec fn parse_transaction(s: Seq<u8>) -> Option<TransactionView> {
    if s.len() < 6 {
        None
    } else {
        let extended = s[4] == 0;
        if extended && s[5] != 1 {
            None
        } else {
            match parse_body(s.skip(if extended { 6int } else { 4int }), extended) {
                Some((input, output, lock_time)) => if input.len() >= 1 && output.len() >= 1 && (
                extended ==> has_witness(input)) {
                    Some(
                        TransactionView {
                            version: version_of_bits(le_u32_at(s, 0)),
                            lock_time,
                            input,
                            output,
                        },
                    )
                } else {
                    None
                },
                None => None,
            }
        }
    }
}

/// Whether a transaction can be written and read back: it has an input and
/// an output, and every part of it is valid.
pub open spec fn transaction_valid(tx: TransactionView) -> bool {
    &&& tx.well_formed()
    &&& tx.input.len() <= u64::MAX
    &&& tx.output.len() <= u64::MAX
    &&& forall|i: int| 0 <= i < tx.input.len() ==> input_valid(#[trigger] tx.input[i])
    &&& forall|i: int| 0 <= i < tx.output.len() ==> output_valid(#[trigger] tx.output[i])
}

/// The inputs of a transaction read back as written, without their
/// witnesses, whatever follows.
pub proof fn lemma_inputs_round_trip(inputs: Seq<TxInView>, rest: Seq<u8>)
    requires
        inputs.len() <= u64::MAX,
        forall|i: int| 0 <= i < inputs.len() ==> input_valid(#[trigger] inputs[i]),
    ensures
        parse_inputs(serialize_inputs(inputs) + rest) == Some(
            (
                inputs.map_values(|x: TxInView| without_witness(x)),
                serialize_inputs(inputs).len() as int,
            ),
        ),
{
    let parse = |t: Seq<u8>| parse_input(t);
    let serialize = |x: TxInView| serialize_input(x);
    let normal = |x: TxInView| without_witness(x);
    let count = compact_size(inputs.len() as u64);
    let items = serialize_list(serialize, inputs);
    let all = serialize_inputs(inputs) + rest;
    lemma_compact_size_round_trip(inputs.len() as u64, items + rest);
    assert(all =~= count + (items + rest));
    assert(all.skip(count.len() as int) =~= items + rest);
    assert forall|i: int| 0 <= i < inputs.len() implies inverts(
        parse,
        serialize,
        normal,
        #[trigger] inputs[i],
    ) by {
        let item = inputs[i];
        assert forall|more: Seq<u8>| #[trigger]
            parse(serialize(item) + more) == Some((normal(item), serialize(item).len() as int)) by {
            lemma_input_round_trip(item, more);
        }
    }
    lemma_list_round_trip(parse, serialize, normal, inputs, rest);
}

/// The outputs of a transaction read back as written, whatever follows.
pub proof fn lemma_outputs_round_trip(outputs: Seq<TxOutView>, rest: Seq<u8>)
    requires
        outputs.len() <= u64::MAX,
        forall|i: int| 0 <= i < outputs.len() ==> output_valid(#[trigger] outputs[i]),
    ensures
        parse_outputs(serialize_outputs(outputs) + rest) == Some(
            (outputs, serialize_outputs(outputs).len() as int),
        ),
{
    let parse = |t: Seq<u8>| parse_output(t);
    let serialize = |x: TxOutView| serialize_output(x);
    let normal = |x: TxOutView| x;
    let count = compact_size(outputs.len() as u64);
    let items = serialize_list(serialize, outputs);
    let all = serialize_outputs(outputs) + rest;
    lemma_compact_size_round_trip(outputs.len() as u64, items + rest);
    assert(all =~= count + (items + rest));
    assert(all.skip(count.len() as int) =~= items + rest);
    assert forall|i: int| 0 <= i < outputs.len() implies inverts(
        parse,
        serialize,
        normal,
        #[trigger] outputs[i],
    ) by {
        let item = outputs[i];
        assert forall|more: Seq<u8>| #[trigger]
            parse(serialize(item) + more) == Some((normal(item), serialize(item).len() as int)) by {
            lemma_output_round_trip(item, more);
        }
    }
    lemma_list_round_trip(parse, serialize, normal, outputs, rest);
}

/// The witnesses of a transaction read back as written, whatever follows.
pub proof fn lemma_witnesses_round_trip(inputs: Seq<TxInView>, rest: Seq<u8>)
    requires
        forall|i: int| 0 <= i < inputs.len() ==> input_valid(#[trigger] inputs[i]),
    ensures
        parse_witnesses(serialize_witnesses(inputs) + rest, inputs.len()) == Some(
            (witnesses(inputs), serialize_witnesses(inputs).len() as int),
        ),
{
    let parse = |t: Seq<u8>| parse_witness(t);
    let serialize = |w: Seq<Seq<u8>>| serialize_witness(w);
    let normal = |w: Seq<Seq<u8>>| w;
    let stacks = witnesses(inputs);
    assert forall|i: int| 0 <= i < stacks.len() implies inverts(
        parse,
        serialize,
        normal,
        #[trigger] stacks[i],
    ) by {
        let stack = stacks[i];
        assert forall|more: Seq<u8>| #[trigger]
            parse(serialize(stack) + more) == Some(
                (normal(stack), serialize(stack).len() as int),
            ) by {
            lemma_witness_round_trip(stack, more);
        }
    }
    lemma_list_round_trip(parse, serialize, normal, stacks, rest);
}

/// The bytes of a transaction after version, marker and flag.
pub open spec fn serialize_body(tx: TransactionView) -> Seq<u8> {
    serialize_inputs(tx.input) + serialize_outputs(tx.output) + (if has_witness(tx.input) {
        serialize_witnesses(tx.input)
    } else {
        Seq::empty()
    }) + le_bytes_u32(tx.lock_time)
}

/// Inputs with their witnesses taken off and put back are the inputs.
pub proof fn lemma_attach_witnesses(inputs: Seq<TxInView>)
    ensures
        attach_witnesses(
            inputs.map_values(|x: TxInView| without_witness(x)),
            witnesses(inputs),
        ) == inputs,
        !has_witness(inputs) ==> inputs.map_values(|x: TxInView| without_witness(x)) == inputs,
{
    let bare = inputs.map_values(|x: TxInView| without_witness(x));
    if !has_witness(inputs) {
        assert forall|i: int| 0 <= i < inputs.len() implies #[trigger] bare[i] == inputs[i] by {
            assert(inputs[i].witness =~= Seq::<Seq<u8>>::empty());
        }
    }
}

/// What follows version, marker and flag reads back as written.
pub proof fn lemma_body_round_trip(tx: TransactionView)
    requires
        transaction_valid(tx),
    ensures
        parse_body(serialize_body(tx), has_witness(tx.input)) == Some(
            (tx.input, tx.output, tx.lock_time),
        ),
{
    let extended = has_witness(tx.input);
    let ins = serialize_inputs(tx.input);
    let outs = serialize_outputs(tx.output);
    let stacks: Seq<u8> = if extended {
        serialize_witnesses(tx.input)
    } else {
        Seq::empty()
    };
    let lock = le_bytes_u32(tx.lock_time);
    let body = serialize_body(tx);
    lemma_inputs_round_trip(tx.input, outs + stacks + lock);
    lemma_outputs_round_trip(tx.output, stacks + lock);
    lemma_le_u32_round_trip(tx.lock_time, Seq::empty());
    lemma_attach_witnesses(tx.input);
    assert(body =~= ins + (outs + stacks + lock));
    assert(body.skip(ins.len() as int) =~= outs + (stacks + lock));
    let after = body.skip((ins.len() + outs.len()) as int);
    assert(after =~= stacks + (lock + Seq::<u8>::empty()));
    assert(after.skip(stacks.len() as int) =~= lock + Seq::<u8>::empty());
    lemma_le_u32_at_skip(after, stacks.len() as int, 0);
    if extended {
        lemma_witnesses_round_trip(tx.input, lock + Seq::<u8>::empty());
    }
}

/// Parsing gives back what was serialized: the bytes of a valid transaction
/// stand for that transaction, field for field and byte for byte.
pub proof fn lemma_transaction_round_trip(tx: TransactionView)
    requires
        transaction_valid(tx),
    ensures
        parse_transaction(serialize_transaction(tx)) == Some(tx),
{
    let extended = has_witness(tx.input);
    let version = le_bytes_u32(version_bits(tx.version));
    let marker: Seq<u8> = if extended {
        seq![0u8, 1u8]
    } else {
        Seq::empty()
    };
    let body = serialize_body(tx);
    let all = serialize_transaction(tx);
    assert(all =~= version + (marker + body));
    lemma_le_u32_round_trip(version_bits(tx.version), marker + body);
    lemma_compact_size_round_trip(tx.input.len() as u64, Seq::empty());
    lemma_body_round_trip(tx);
    assert(all.skip((4 + marker.len()) as int) =~= body);
}

/// Whether whatever `parse` reads is a good item of which `serialize` writes
/// exactly the bytes read.
pub open spec fn reads_back<T>(
    parse: spec_fn(Seq<u8>) -> Parsed<T>,
    serialize: spec_fn(T) -> Seq<u8>,
    good: spec_fn(T) -> bool,
) -> bool {
    forall|t: Seq<u8>|
        match #[trigger] parse(t) {
            Some((x, taken)) => 0 <= taken <= t.len() && serialize(x) == t.subrange(0, taken)
                && good(x),
            None => true,
        }
}

/// Where a list is read, the bytes read are the serialization of the list,
/// and every item of it is good, where that holds of each item.
pub proof fn lemma_list_parsed<T>(
    parse: spec_fn(Seq<u8>) -> Parsed<T>,
    serialize: spec_fn(T) -> Seq<u8>,
    good: spec_fn(T) -> bool,
    s: Seq<u8>,
    count: nat,
)
    requires
        reads_back(parse, serialize, good),
    ensures
        match parse_list(parse, s, count) {
            Some((items, taken)) => {
                &&& items.len() == count
                &&& 0 <= taken <= s.len()
                &&& serialize_list(serialize, items) == s.subrange(0, taken)
                &&& forall|i: int| 0 <= i < items.len() ==> good(#[trigger] items[i])
            },
            None => true,
        },
    decreases count,
{
    if count > 0 && parse_list(parse, s, count) is Some {
        let (items, _) = parse_list(parse, s, count)->Some_0;
        let (_, c) = parse(s)->Some_0;
        lemma_list_parsed(parse, serialize, good, s.skip(c), (count - 1) as nat);
        let (others, _) = parse_list(parse, s.skip(c), (count - 1) as nat)->Some_0;
        assert(items.drop_first() =~= others);
    }
}

/// Lists whose items have the same serializations have the same
/// serialization.
pub proof fn lemma_serialize_list_same<T>(item: spec_fn(T) -> Seq<u8>, xs: Seq<T>, ys: Seq<T>)
    requires
        xs.len() == ys.len(),
        forall|i: int| 0 <= i < xs.len() ==> item(#[trigger] xs[i]) == item(ys[i]),
    ensures
        serialize_list(item, xs) == serialize_list(item, ys),
    decreases xs.len(),
{
    if xs.len() > 0 {
        lemma_serialize_list_same(item, xs.drop_first(), ys.drop_first());
    }
}

/// Where a byte string is read, the bytes read are its serialization.
pub proof fn lemma_var_bytes_parsed(s: Seq<u8>)
    ensures
        match parse_var_bytes(s) {
            Some((bytes, taken)) => 0 <= taken <= s.len() && var_bytes(bytes) == s.subrange(
                0,
                taken,
            ) && bytes.len() <= u64::MAX,
            None => true,
        },
{
    lemma_compact_size_parsed(s);
}

/// Where an input is read, the bytes read are its serialization, and it is
/// valid and has no witness.
pub proof fn lemma_input_parsed(s: Seq<u8>)
    ensures
        match parse_input(s) {
            Some((input, taken)) => {
                &&& 0 <= taken <= s.len()
                &&& serialize_input(input) == s.subrange(0, taken)
                &&& input_valid(input)
                &&& input.witness.len() == 0
            },
            None => true,
        },
{
    if parse_input(s) is Some {
        let (_, c) = parse_script(s.skip(36))->Some_0;
        lemma_var_bytes_parsed(s.skip(36));
        lemma_le_u32_bytes_at(s, 32);
        lemma_le_u32_bytes_at(s, 36 + c);
    }
}

/// Where an output is read, the bytes read are its serialization, and it is
/// valid.
pub proof fn lemma_output_parsed(s: Seq<u8>)
    ensures
        match parse_output(s) {
            Some((output, taken)) => {
                &&& 0 <= taken <= s.len()
                &&& serialize_output(output) == s.subrange(0, taken)
                &&& output_valid(output)
            },
            None => true,
        },
{
    if parse_output(s) is Some {
        lemma_var_bytes_parsed(s.skip(8));
        lemma_le_u64_bytes_at(s, 0);
    }
}

/// Whether a witness can be written and read back: a count and lengths that
/// fit into 64 bits.
pub open spec fn witness_valid(witness: Seq<Seq<u8>>) -> bool {
    &&& witness.len() <= u64::MAX
    &&& forall|i: int| 0 <= i < witness.len() ==> (#[trigger] witness[i]).len() <= u64::MAX
}

/// Where a witness is read, the bytes read are its serialization, and it is
/// valid.
pub proof fn lemma_witness_parsed(s: Seq<u8>)
    ensures
        match parse_witness(s) {
            Some((witness, taken)) => {
                &&& 0 <= taken <= s.len()
                &&& serialize_witness(witness) == s.subrange(0, taken)
                &&& witness_valid(witness)
            },
            None => true,
        },
{
    let parse = |t: Seq<u8>| parse_var_bytes(t);
    let serialize = |item: Seq<u8>| var_bytes(item);
    let good = |item: Seq<u8>| item.len() <= u64::MAX;
    if parse_witness(s) is Some {
        let (count, c) = parse_compact_size(s)->Some_0;
        lemma_compact_size_parsed(s);
        assert(reads_back(parse, serialize, good)) by {
            assert forall|t: Seq<u8>|
                match #[trigger] parse(t) {
                    Some((x, n)) => 0 <= n <= t.len() && serialize(x) == t.subrange(0, n) && good(
                        x,
                    ),
                    None => true,
                } by {
                lemma_var_bytes_parsed(t);
            }
        }
        lemma_list_parsed(parse, serialize, good, s.skip(c), count as nat);
    }
}

/// Where the inputs of a transaction are read, the bytes read are their
/// serialization, and each of them is valid and has no witness.
pub proof fn lemma_inputs_parsed(s: Seq<u8>)
    ensures
        match parse_inputs(s) {
            Some((inputs, taken)) => {
                &&& 0 <= taken <= s.len()
                &&& inputs.len() <= u64::MAX
                &&& serialize_inputs(inputs) == s.subrange(0, taken)
                &&& forall|i: int|
                    0 <= i < inputs.len() ==> input_valid(#[trigger] inputs[i])
                        && inputs[i].witness.len() == 0
            },
            None => true,
        },
{
    let parse = |t: Seq<u8>| parse_input(t);
    let serialize = |x: TxInView| serialize_input(x);
    let good = |x: TxInView| input_valid(x) && x.witness.len() == 0;
    if parse_inputs(s) is Some {
        let (count, c) = parse_compact_size(s)->Some_0;
        lemma_compact_size_parsed(s);
        assert(reads_back(parse, serialize, good)) by {
            assert forall|t: Seq<u8>|
                match #[trigger] parse(t) {
                    Some((x, n)) => 0 <= n <= t.len() && serialize(x) == t.subrange(0, n) && good(
                        x,
                    ),
                    None => true,
                } by {
                lemma_input_parsed(t);
            }
        }
        lemma_list_parsed(parse, serialize, good, s.skip(c), count as nat);
    }
}

/// Where the outputs of a transaction are read, the bytes read are their
/// serialization, and each of them is valid.
pub proof fn lemma_outputs_parsed(s: Seq<u8>)
    ensures
        match parse_outputs(s) {
            Some((outputs, taken)) => {
                &&& 0 <= taken <= s.len()
                &&& outputs.len() <= u64::MAX
                &&& serialize_outputs(outputs) == s.subrange(0, taken)
                &&& forall|i: int| 0 <= i < outputs.len() ==> output_valid(#[trigger] outputs[i])
            },
            None => true,
        },
{
    let parse = |t: Seq<u8>| parse_output(t);
    let serialize = |x: TxOutView| serialize_output(x);
    let good = |x: TxOutView| output_valid(x);
    if parse_outputs(s) is Some {
        let (count, c) = parse_compact_size(s)->Some_0;
        lemma_compact_size_parsed(s);
        assert(reads_back(parse, serialize, good)) by {
            assert forall|t: Seq<u8>|
                match #[trigger] parse(t) {
                    Some((x, n)) => 0 <= n <= t.len() && serialize(x) == t.subrange(0, n) && good(
                        x,
                    ),
                    None => true,
                } by {
                lemma_output_parsed(t);
            }
        }
        lemma_list_parsed(parse, serialize, good, s.skip(c), count as nat);
    }
}

/// Where the witnesses of a transaction are read, there is one for each
/// input, the bytes read are their serialization, and each is valid.
pub proof fn lemma_witnesses_parsed(s: Seq<u8>, count: nat)
    ensures
        match parse_witnesses(s, count) {
            Some((stacks, taken)) => {
                &&& stacks.len() == count
                &&& 0 <= taken <= s.len()
                &&& serialize_list(|w: Seq<Seq<u8>>| serialize_witness(w), stacks) == s.subrange(
                    0,
                    taken,
                )
                &&& forall|i: int| 0 <= i < stacks.len() ==> witness_valid(#[trigger] stacks[i])
            },
            None => true,
        },
{
    let parse = |t: Seq<u8>| parse_witness(t);
    let serialize = |w: Seq<Seq<u8>>| serialize_witness(w);
    let good = |w: Seq<Seq<u8>>| witness_valid(w);
    assert(reads_back(parse, serialize, good)) by {
        assert forall|t: Seq<u8>|
            match #[trigger] parse(t) {
                Some((x, n)) => 0 <= n <= t.len() && serialize(x) == t.subrange(0, n) && good(x),
                None => true,
            } by {
            lemma_witness_parsed(t);
        }
    }
    lemma_list_parsed(parse, serialize, good, s, count);
}

/// Where the part after version, marker and flag is read, it is the
/// serialization of what was read, all of which is valid; and inputs that
/// were read in the plain format have no witness.
pub proof fn lemma_body_parsed(s: Seq<u8>, extended: bool)
    ensures
        match parse_body(s, extended) {
            Some((inputs, outputs, lock_time)) => {
                &&& inputs.len() <= u64::MAX
                &&& outputs.len() <= u64::MAX
                &&& forall|i: int| 0 <= i < inputs.len() ==> input_valid(#[trigger] inputs[i])
                &&& forall|i: int| 0 <= i < outputs.len() ==> output_valid(#[trigger] outputs[i])
                &&& !extended ==> !has_witness(inputs)
                &&& s == serialize_inputs(inputs) + serialize_outputs(outputs) + (if extended {
                    serialize_witnesses(inputs)
                } else {
                    Seq::empty()
                }) + le_bytes_u32(lock_time)
            },
            None => true,
        },
{
    if parse_body(s, extended) is Some {
        let (inputs, _, _) = parse_body(s, extended)->Some_0;
        let (bare, a) = parse_inputs(s)->Some_0;
        let (_, b) = parse_outputs(s.skip(a))->Some_0;
        let after = s.skip(a + b);
        lemma_inputs_parsed(s);
        lemma_outputs_parsed(s.skip(a));
        if extended {
            let (stacks, c) = parse_witnesses(after, bare.len())->Some_0;
            lemma_witnesses_parsed(after, bare.len());
            lemma_le_u32_bytes_at(after, c);
            lemma_serialize_list_same(|x: TxInView| serialize_input(x), inputs, bare);
            assert(witnesses(inputs) =~= stacks);
        } else {
            lemma_le_u32_bytes_at(after, 0);
        }
    }
}

/// Serializing gives back what was parsed: bytes that stand for a
/// transaction are the serialization of that transaction, which is valid. No
/// transaction has two serializations that parse.
pub proof fn lemma_transaction_parsed(s: Seq<u8>)
    ensures
        match parse_transaction(s) {
            Some(tx) => serialize_transaction(tx) == s && transaction_valid(tx),
            None => true,
        },
{
    if parse_transaction(s) is Some {
        let tx = parse_transaction(s)->Some_0;
        let extended = s[4] == 0;
        let body = s.skip(if extended { 6int } else { 4int });
        let marker: Seq<u8> = if extended {
            seq![0u8, 1u8]
        } else {
            Seq::empty()
        };
        lemma_body_parsed(body, extended);
        lemma_le_u32_bytes_at(s, 0);
        assert(serialize_transaction(tx) =~= s.subrange(0, 4) + marker + body);
    }
}

/// The serialization of a list with one more item at its end is that of
/// the list, then that of the item.
pub proof fn lemma_serialize_list_push<T>(item: spec_fn(T) -> Seq<u8>, items: Seq<T>, last: T)
    ensures
        serialize_list(item, items.push(last)) == serialize_list(item, items) + item(last),
    decreases items.len(),
{
    let all = items.push(last);
    if items.len() == 0 {
        assert(all.drop_first() =~= Seq::<T>::empty());
        assert(serialize_list(item, Seq::<T>::empty()) =~= Seq::<u8>::empty());
    } else {
        assert(all.drop_first() =~= items.drop_first().push(last));
        lemma_serialize_list_push(item, items.drop_first(), last);
    }
}

/// Appends `data` behind its length to `out`.
pub fn write_var_bytes(out: &mut Vec<u8>, data: &[u8])
    ensures
        final(out)@ == old(out)@ + var_bytes(data@),
        data@.len() <= u64::MAX,
{
    write_compact_size(out, data.len() as u64);
    append_slice(out, data);
}

/// Appends `input`, without its witness, to `out`.
pub fn write_input(out: &mut Vec<u8>, input: &TxIn)
    ensures
        final(out)@ == old(out)@ + serialize_input(input@),
        input@.script_sig.len() <= MAX_SCRIPT_SIZE,
{
    append_slice(out, input.previous_output.txid.as_slice());
    write_u32(out, input.previous_output.vout);
    write_var_bytes(out, input.script_sig.as_bytes());
    write_u32(out, input.sequence);
}

/// Appends `output` to `out`.
pub fn write_output(out: &mut Vec<u8>, output: &TxOut)
    ensures
        final(out)@ == old(out)@ + serialize_output(output@),
        output_valid(output@),
{
    write_u64(out, output.value);
    write_var_bytes(out, output.script_pubkey.as_bytes());
}

/// Appends the witness of `input` to `out`.
pub fn write_witness(out: &mut Vec<u8>, input: &TxIn)
    ensures
        final(out)@ == old(out)@ + serialize_witness(input@.witness),
        witness_valid(input@.witness),
{
    let ghost item = |item: Seq<u8>| var_bytes(item);
    let ghost stack = input@.witness;
    write_compact_size(out, input.witness.len() as u64);
    let ghost start = out@;
    let mut i: usize = 0;
    while i < input.witness.len()
        invariant
            i <= input.witness.len(),
            stack == input@.witness,
            item == |item: Seq<u8>| var_bytes(item),
            out@ == start + serialize_list(item, stack.take(i as int)),
            forall|j: int| 0 <= j < i ==> (#[trigger] stack[j]).len() <= u64::MAX,
        decreases input.witness.len() - i,
    {
        proof {
            lemma_serialize_list_push(item, stack.take(i as int), stack[i as int]);
            assert(stack.take(i as int).push(stack[i as int]) =~= stack.take(i + 1));
        }
        write_var_bytes(out, input.witness[i].as_slice());
        i = i + 1;
    }
    assert(stack.take(stack.len() as int) =~= stack);
}

/// Whether one of the inputs of `tx` has a witness.
pub fn carries_witness(tx: &Transaction) -> (found: bool)
    ensures
        found == has_witness(tx@.input),
{
    let mut i: usize = 0;
    while i < tx.input.len()
        invariant
            i <= tx.input.len(),
            forall|j: int| 0 <= j < i ==> (#[trigger] tx@.input[j]).witness.len() == 0,
        decreases tx.input.len() - i,
    {
        if tx.input[i].witness.len() > 0 {
            assert(tx@.input[i as int].witness.len() > 0);
            return true;
        }
        i = i + 1;
    }
    false
}

impl Transaction {
    /// The bytes of the transaction in the wire format. Parsing them gives
    /// the transaction back, where it has an input and an output.
    pub fn serialize(&self) -> (bytes: Vec<u8>)
        ensures
            bytes@ == serialize_transaction(self@),
            self@.well_formed() ==> parse_transaction(bytes@) == Some(self@),
    {
        let ghost tx = self@;
        let ghost one_input = |x: TxInView| serialize_input(x);
        let ghost one_output = |x: TxOutView| serialize_output(x);
        let ghost one_witness = |w: Seq<Seq<u8>>| serialize_witness(w);
        let extended: bool = carries_witness(self);
        let mut out: Vec<u8> = Vec::new();
        let bits: u32 = if self.version >= 0 {
            self.version as u32
        } else {
            (self.version as i64 + 0x1_0000_0000) as u32
        };
        write_u32(&mut out, bits);
        if extended {
            out.push(0);
            out.push(1);
        }
        write_compact_size(&mut out, self.input.len() as u64);
        let ghost start = out@;
        let mut i: usize = 0;
        while i < self.input.len()
            invariant
                i <= self.input.len(),
                tx == self@,
                one_input == |x: TxInView| serialize_input(x),
                out@ == start + serialize_list(one_input, tx.input.take(i as int)),
                forall|j: int|
                    0 <= j < i ==> (#[trigger] tx.input[j]).script_sig.len() <= MAX_SCRIPT_SIZE,
            decreases self.input.len() - i,
        {
            proof {
                lemma_serialize_list_push(one_input, tx.input.take(i as int), tx.input[i as int]);
                assert(tx.input.take(i as int).push(tx.input[i as int]) =~= tx.input.take(i + 1));
            }
            write_input(&mut out, &self.input[i]);
            i = i + 1;
        }
        assert(tx.input.take(tx.input.len() as int) =~= tx.input);
        write_compact_size(&mut out, self.output.len() as u64);
        let ghost start = out@;
        let mut i: usize = 0;
        while i < self.output.len()
            invariant
                i <= self.output.len(),
                tx == self@,
                one_output == |x: TxOutView| serialize_output(x),
                out@ == start + serialize_list(one_output, tx.output.take(i as int)),
                forall|j: int| 0 <= j < i ==> output_valid(#[trigger] tx.output[j]),
            decreases self.output.len() - i,
        {
            proof {
                lemma_serialize_list_push(
                    one_output,
                    tx.output.take(i as int),
                    tx.output[i as int],
                );
                assert(tx.output.take(i as int).push(tx.output[i as int]) =~= tx.output.take(
                    i + 1,
                ));
            }
            write_output(&mut out, &self.output[i]);
            i = i + 1;
        }
        assert(tx.output.take(tx.output.len() as int) =~= tx.output);
        let ghost with_outputs = out@;
        let ghost stacks = witnesses(tx.input);
        if extended {
            let mut i: usize = 0;
            while i < self.input.len()
                invariant
                    i <= self.input.len(),
                    tx == self@,
                    stacks == witnesses(tx.input),
                    one_witness == |w: Seq<Seq<u8>>| serialize_witness(w),
                    out@ == with_outputs + serialize_list(one_witness, stacks.take(i as int)),
                    forall|j: int| 0 <= j < i ==> witness_valid((#[trigger] tx.input[j]).witness),
                decreases self.input.len() - i,
            {
                proof {
                    lemma_serialize_list_push(one_witness, stacks.take(i as int), stacks[i as int]);
                    assert(stacks.take(i as int).push(stacks[i as int]) =~= stacks.take(i + 1));
                }
                write_witness(&mut out, &self.input[i]);
                i = i + 1;
            }
            assert(stacks.take(stacks.len() as int) =~= stacks);
        }
        write_u32(&mut out, self.lock_time);
        proof {
            assert(out@ =~= serialize_transaction(tx));
            if tx.well_formed() {
                lemma_transaction_round_trip(tx);
            }
        }
        out
    }
}

/// What parsing a list gives once `done` was parsed from the first `taken`
/// bytes and `remaining` is what parsing the rest gives.
pub open spec fn continue_list<T>(done: Seq<T>, taken: int, remaining: Parsed<Seq<T>>) -> Parsed<
    Seq<T>,
> {
    match remaining {
        Some((others, more)) => Some((done + others, taken + more)),
        None => None,
    }
}

/// Parsing one more item carries on what was parsed so far.
pub proof fn lemma_parse_list_step<T>(
    parse: spec_fn(Seq<u8>) -> Parsed<T>,
    s: Seq<u8>,
    count: nat,
    done: Seq<T>,
    taken: int,
)
    requires
        count >= 1,
        0 <= taken <= s.len(),
    ensures
        match parse(s.skip(taken)) {
            Some((next, more)) => 0 <= more && taken + more <= s.len() ==> continue_list(
                done,
                taken,
                parse_list(parse, s.skip(taken), count),
            ) == continue_list(
                done.push(next),
                taken + more,
                parse_list(parse, s.skip(taken + more), (count - 1) as nat),
            ),
            None => continue_list(done, taken, parse_list(parse, s.skip(taken), count)) is None,
        },
{
    if parse(s.skip(taken)) matches Some((next, more)) && 0 <= more && taken + more <= s.len() {
        let (_, more) = parse(s.skip(taken))->Some_0;
        assert(s.skip(taken).skip(more) =~= s.skip(taken + more));
    }
}

/// Reads the byte string that `data` holds at `at` behind its length. With
/// the bytes comes the position after them.
pub fn read_var_bytes(data: &[u8], at: usize) -> (res: Option<(Vec<u8>, usize)>)
    requires
        at <= data@.len(),
    ensures
        match res {
            Some((bytes, next)) => parse_var_bytes(data@.skip(at as int)) == Some(
                (bytes@, next - at),
            ) && at < next <= data@.len(),
            None => parse_var_bytes(data@.skip(at as int)) is None,
        },
{
    match read_compact_size(data, at) {
        None => None,
        Some((len, start)) => {
            let left: usize = data.len() - start;
            if len > left as u64 {
                None
            } else {
                let end: usize = start + len as usize;
                let mut bytes: Vec<u8> = Vec::new();
                append_slice(&mut bytes, vstd::slice::slice_subrange(data, start, end));
                Some((bytes, end))
            }
        },
    }
}

/// Reads the script that `data` holds at `at` behind its length.
pub fn read_script(data: &[u8], at: usize) -> (res: Option<(Script, usize)>)
    requires
        at <= data@.len(),
    ensures
        match res {
            Some((script, next)) => parse_script(data@.skip(at as int)) == Some(
                (script@, next - at),
            ) && at < next <= data@.len(),
            None => parse_script(data@.skip(at as int)) is None,
        },
{
    match read_var_bytes(data, at) {
        None => None,
        Some((bytes, next)) => match Script::from_bytes(bytes) {
            Ok(script) => Some((script, next)),
            Err(_) => None,
        },
    }
}

/// Reads the input that `data` holds at `at`; its witness stays empty.
pub fn read_input(data: &[u8], at: usize) -> (res: Option<(TxIn, usize)>)
    requires
        at <= data@.len(),
    ensures
        match res {
            Some((input, next)) => parse_input(data@.skip(at as int)) == Some(
                (input@, next - at),
            ) && at < next <= data@.len(),
            None => parse_input(data@.skip(at as int)) is None,
        },
{
    let ghost s = data@.skip(at as int);
    if data.len() - at < 36 {
        return None;
    }
    let total: usize = data.len();
    let mut txid: [u8; 32] = [0u8; 32];
    let mut i: usize = 0;
    while i < 32
        invariant
            i <= 32,
            at + 36 <= total,
            total == data@.len(),
            forall|j: int| 0 <= j < i ==> txid@[j] == data@[at + j],
        decreases 32 - i,
    {
        txid[i] = data[at + i];
        i = i + 1;
    }
    let vout: u32 = read_u32(data, at + 32);
    proof {
        assert(txid@ =~= s.subrange(0, 32));
        lemma_le_u32_at_skip(data@, at as int, 32);
        assert(s.skip(36) =~= data@.skip(at + 36));
    }
    match read_script(data, at + 36) {
        None => None,
        Some((script_sig, next)) => {
            if data.len() - next < 4 {
                None
            } else {
                let sequence: u32 = read_u32(data, next);
                proof {
                    lemma_le_u32_at_skip(data@, at as int, next - at);
                }
                let witness: Vec<Vec<u8>> = Vec::new();
                let input = TxIn {
                    previous_output: OutPoint { txid, vout },
                    script_sig,
                    sequence,
                    witness,
                };
                assert(input@.witness =~= Seq::<Seq<u8>>::empty());
                Some((input, next + 4))
            }
        },
    }
}

/// Reads the output that `data` holds at `at`.
pub fn read_output(data: &[u8], at: usize) -> (res: Option<(TxOut, usize)>)
    requires
        at <= data@.len(),
    ensures
        match res {
            Some((output, next)) => parse_output(data@.skip(at as int)) == Some(
                (output@, next - at),
            ) && at < next <= data@.len(),
            None => parse_output(data@.skip(at as int)) is None,
        },
{
    let ghost s = data@.skip(at as int);
    if data.len() - at < 8 {
        return None;
    }
    let value: u64 = read_u64(data, at);
    proof {
        lemma_le_u64_at_skip(data@, at as int, 0);
        assert(s.skip(8) =~= data@.skip(at + 8));
    }
    match read_script(data, at + 8) {
        None => None,
        Some((script_pubkey, next)) => Some((TxOut { value, script_pubkey }, next)),
    }
}

/// Reads the witness that `data` holds at `at`.
pub fn read_witness(data: &[u8], at: usize) -> (res: Option<(Vec<Vec<u8>>, usize)>)
    requires
        at <= data@.len(),
    ensures
        match res {
            Some((stack, next)) => parse_witness(data@.skip(at as int)) == Some(
                (witness_view(stack@), next - at),
            ) && at < next <= data@.len(),
            None => parse_witness(data@.skip(at as int)) is None,
        },
{
    let ghost one = |t: Seq<u8>| parse_var_bytes(t);
    match read_compact_size(data, at) {
        None => None,
        Some((count, start)) => {
            let ghost s = data@.skip(start as int);
            assert(s =~= data@.skip(at as int).skip(start - at));
            let mut stack: Vec<Vec<u8>> = Vec::new();
            let mut pos: usize = start;
            let mut i: u64 = 0;
            assert(s.skip(0) =~= s);
            while i < count
                invariant
                    i <= count,
                    at < start <= pos <= data@.len(),
                    s == data@.skip(start as int),
                    one == |t: Seq<u8>| parse_var_bytes(t),
                    parse_witness(data@.skip(at as int)) == continue_list(
                        Seq::empty(),
                        start - at,
                        parse_list(one, s, count as nat),
                    ),
                    parse_list(one, s, count as nat) == continue_list(
                        witness_view(stack@),
                        pos - start,
                        parse_list(one, s.skip(pos - start), (count - i) as nat),
                    ),
                decreases count - i,
            {
                proof {
                    lemma_parse_list_step(
                        one,
                        s,
                        (count - i) as nat,
                        witness_view(stack@),
                        pos - start,
                    );
                    assert(s.skip(pos - start) =~= data@.skip(pos as int));
                }
                match read_var_bytes(data, pos) {
                    None => {
                        return None;
                    },
                    Some((item, next)) => {
                        stack.push(item);
                        pos = next;
                        i = i + 1;
                    },
                }
            }
            Some((stack, pos))
        },
    }
}

/// Reads the inputs that `data` holds at `at` behind their count; their
/// witnesses stay empty.
pub fn read_inputs(data: &[u8], at: usize) -> (res: Option<(Vec<TxIn>, usize)>)
    requires
        at <= data@.len(),
    ensures
        match res {
            Some((inputs, next)) => parse_inputs(data@.skip(at as int)) == Some(
                (inputs_view(inputs@), next - at),
            ) && at < next <= data@.len(),
            None => parse_inputs(data@.skip(at as int)) is None,
        },
{
    let ghost one = |t: Seq<u8>| parse_input(t);
    match read_compact_size(data, at) {
        None => None,
        Some((count, start)) => {
            let ghost s = data@.skip(start as int);
            assert(s =~= data@.skip(at as int).skip(start - at));
            let mut inputs: Vec<TxIn> = Vec::new();
            let mut pos: usize = start;
            let mut i: u64 = 0;
            assert(s.skip(0) =~= s);
            while i < count
                invariant
                    i <= count,
                    at < start <= pos <= data@.len(),
                    s == data@.skip(start as int),
                    one == |t: Seq<u8>| parse_input(t),
                    parse_inputs(data@.skip(at as int)) == continue_list(
                        Seq::empty(),
                        start - at,
                        parse_list(one, s, count as nat),
                    ),
                    parse_list(one, s, count as nat) == continue_list(
                        inputs_view(inputs@),
                        pos - start,
                        parse_list(one, s.skip(pos - start), (count - i) as nat),
                    ),
                decreases count - i,
            {
                proof {
                    lemma_parse_list_step(
                        one,
                        s,
                        (count - i) as nat,
                        inputs_view(inputs@),
                        pos - start,
                    );
                    assert(s.skip(pos - start) =~= data@.skip(pos as int));
                }
                match read_input(data, pos) {
                    None => {
                        return None;
                    },
                    Some((input, next)) => {
                        inputs.push(input);
                        pos = next;
                        i = i + 1;
                    },
                }
            }
            Some((inputs, pos))
        },
    }
}

/// Reads the outputs that `data` holds at `at` behind their count.
pub fn read_outputs(data: &[u8], at: usize) -> (res: Option<(Vec<TxOut>, usize)>)
    requires
        at <= data@.len(),
    ensures
        match res {
            Some((outputs, next)) => parse_outputs(data@.skip(at as int)) == Some(
                (outputs_view(outputs@), next - at),
            ) && at < next <= data@.len(),
            None => parse_outputs(data@.skip(at as int)) is None,
        },
{
    let ghost one = |t: Seq<u8>| parse_output(t);
    match read_compact_size(data, at) {
        None => None,
        Some((count, start)) => {
            let ghost s = data@.skip(start as int);
            assert(s =~= data@.skip(at as int).skip(start - at));
            let mut outputs: Vec<TxOut> = Vec::new();
            let mut pos: usize = start;
            let mut i: u64 = 0;
            assert(s.skip(0) =~= s);
            while i < count
                invariant
                    i <= count,
                    at < start <= pos <= data@.len(),
                    s == data@.skip(start as int),
                    one == |t: Seq<u8>| parse_output(t),
                    parse_outputs(data@.skip(at as int)) == continue_list(
                        Seq::empty(),
                        start - at,
                        parse_list(one, s, count as nat),
                    ),
                    parse_list(one, s, count as nat) == continue_list(
                        outputs_view(outputs@),
                        pos - start,
                        parse_list(one, s.skip(pos - start), (count - i) as nat),
                    ),
                decreases count - i,
            {
                proof {
                    lemma_parse_list_step(
                        one,
                        s,
                        (count - i) as nat,
                        outputs_view(outputs@),
                        pos - start,
                    );
                    assert(s.skip(pos - start) =~= data@.skip(pos as int));
                }
                match read_output(data, pos) {
                    None => {
                        return None;
                    },
                    Some((output, next)) => {
                        outputs.push(output);
                        pos = next;
                        i = i + 1;
                    },
                }
            }
            Some((outputs, pos))
        },
    }
}

/// Reads one witness for each of `inputs` from `data` at `at` and puts it
/// into its input.
pub fn read_witnesses(data: &[u8], at: usize, inputs: &mut Vec<TxIn>) -> (res: Option<usize>)
    requires
        at <= data@.len(),
    ensures
        match res {
            Some(next) => at <= next <= data@.len() && (match parse_witnesses(
                data@.skip(at as int),
                old(inputs)@.len(),
            ) {
                Some((stacks, taken)) => taken == next - at && inputs_view(final(inputs)@)
                    == attach_witnesses(inputs_view(old(inputs)@), stacks),
                None => false,
            }),
            None => parse_witnesses(data@.skip(at as int), old(inputs)@.len()) is None,
        },
{
    let ghost one = |t: Seq<u8>| parse_witness(t);
    let ghost s = data@.skip(at as int);
    let ghost bare = inputs_view(inputs@);
    let ghost mut stacks: Seq<Seq<Seq<u8>>> = Seq::empty();
    let count: usize = inputs.len();
    let mut pos: usize = at;
    let mut i: usize = 0;
    assert(s.skip(0) =~= s);
    while i < count
        invariant
            i <= count,
            count == inputs@.len(),
            count == old(inputs)@.len(),
            bare == inputs_view(old(inputs)@),
            at <= pos <= data@.len(),
            s == data@.skip(at as int),
            one == |t: Seq<u8>| parse_witness(t),
            stacks.len() == i,
            forall|j: int|
                0 <= j < i ==> (#[trigger] inputs@[j])@ == (TxInView {
                    witness: stacks[j],
                    ..bare[j]
                }),
            forall|j: int| i <= j < count ==> (#[trigger] inputs@[j])@ == bare[j],
            parse_list(one, s, count as nat) == continue_list(
                stacks,
                pos - at,
                parse_list(one, s.skip(pos - at), (count - i) as nat),
            ),
        decreases count - i,
    {
        proof {
            lemma_parse_list_step(one, s, (count - i) as nat, stacks, pos - at);
            assert(s.skip(pos - at) =~= data@.skip(pos as int));
        }
        match read_witness(data, pos) {
            None => {
                return None;
            },
            Some((stack, next)) => {
                proof {
                    stacks = stacks.push(witness_view(stack@));
                }
                inputs[i].witness = stack;
                pos = next;
                i = i + 1;
            },
        }
    }
    Some(pos)
}

/// Reads what follows version, marker and flag, to the end of `data`.
pub fn read_body(data: &[u8], at: usize, extended: bool) -> (res: Option<
    (Vec<TxIn>, Vec<TxOut>, u32),
>)
    requires
        at <= data@.len(),
    ensures
        match res {
            Some((inputs, outputs, lock_time)) => parse_body(data@.skip(at as int), extended)
                == Some((inputs_view(inputs@), outputs_view(outputs@), lock_time)),
            None => parse_body(data@.skip(at as int), extended) is None,
        },
{
    let ghost s = data@.skip(at as int);
    match read_inputs(data, at) {
        None => None,
        Some((inputs, after_inputs)) => {
            let mut inputs = inputs;
            assert(s.skip(after_inputs - at) =~= data@.skip(after_inputs as int));
            match read_outputs(data, after_inputs) {
                None => None,
                Some((outputs, after_outputs)) => {
                    let ghost after = data@.skip(after_outputs as int);
                    assert(s.skip((after_inputs - at) + (after_outputs - after_inputs)) =~= after);
                    let end: usize = if extended {
                        match read_witnesses(data, after_outputs, &mut inputs) {
                            None => {
                                return None;
                            },
                            Some(next) => next,
                        }
                    } else {
                        after_outputs
                    };
                    if data.len() - end != 4 {
                        return None;
                    }
                    let lock_time: u32 = read_u32(data, end);
                    proof {
                        lemma_le_u32_at_skip(data@, after_outputs as int, end - after_outputs);
                    }
                    Some((inputs, outputs, lock_time))
                },
            }
        },
    }
}

impl Transaction {
    /// The transaction that the bytes `data` stand for, if they stand for
    /// one. Its serialization is `data` again.
    pub fn parse(data: &[u8]) -> (res: Option<Transaction>)
        ensures
            match res {
                Some(tx) => parse_transaction(data@) == Some(tx@) && tx@.well_formed()
                    && serialize_transaction(tx@) == data@,
                None => parse_transaction(data@) is None,
            },
    {
        proof {
            lemma_transaction_parsed(data@);
        }
        if data.len() < 6 {
            return None;
        }
        let bits: u32 = read_u32(data, 0);
        let version: i32 = if bits < 0x8000_0000 {
            bits as i32
        } else {
            (bits as i64 - 0x1_0000_0000) as i32
        };
        let extended: bool = data[4] == 0;
        if extended && data[5] != 1 {
            return None;
        }
        let start: usize = if extended {
            6
        } else {
            4
        };
        match read_body(data, start, extended) {
            None => None,
            Some((input, output, lock_time)) => {
                if input.len() == 0 || output.len() == 0 {
                    return None;
                }
                let tx = Transaction { version, lock_time, input, output };
                if extended && !carries_witness(&tx) {
                    return None;
                }
                Some(tx)
            },
        }
    }
}

} // verus!
