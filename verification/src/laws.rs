//! What holds of the wire format as a whole: reading undoes writing, and
//! a value that has arrived only in part is never mistaken for anything
//! but a value that has arrived only in part.

use crate::buffer::{be_bytes, be_value};
use crate::command_interpreter::{
    encode_command, parse_command, parse_operands, CommandValue,
};
use crate::data_type::{DataType, Int, Value};
use crate::decoder::lemma_be_value_push;
use crate::encoder::{lemma_be_bytes_len, lemma_encode_items_grows, LENGTH_MAX};
use crate::errors::DecodeError;
use crate::wire::{encode_items, encode_value, parse_items, parse_value, MAX_DEPTH};
use vstd::prelude::*;
use vstd::std_specs::cmp::PartialEqSpec;

verus! {

/// The number of values that `width` bytes can tell apart.
pub open spec fn pow256(width: nat) -> nat
    decreases width,
{
    if width == 0 {
        1
    } else {
        256 * pow256((width - 1) as nat)
    }
}

/// A number that fits in `width` bytes is read back from its big-endian
/// bytes.
pub proof fn lemma_be_roundtrip(x: nat, width: nat)
    requires
        x < pow256(width),
    ensures
        be_value(be_bytes(x, width)) == x,
    decreases width,
{
    if width > 0 {
        lemma_be_roundtrip(x / 256, (width - 1) as nat);
        lemma_be_value_push(be_bytes(x / 256, (width - 1) as nat), (x % 256) as u8);
    }
}

/// The widths of the format, and what fits in them.
proof fn lemma_widths()
    ensures
        pow256(2) == 0x1_0000,
        pow256(4) == 0x1_0000_0000,
        pow256(8) == 0x1_0000_0000_0000_0000,
{
    reveal_with_fuel(pow256, 9);
}

/// A number of `width` bytes that stands at the head of a sequence is read
/// back from there.
proof fn lemma_be_head(x: nat, width: nat, rest: Seq<u8>)
    requires
        x < pow256(width),
    ensures
        be_bytes(x, width).len() == width,
        (be_bytes(x, width) + rest).take(width as int) == be_bytes(x, width),
        (be_bytes(x, width) + rest).skip(width as int) == rest,
        be_value((be_bytes(x, width) + rest).take(width as int)) == x,
{
    lemma_be_bytes_len(x, width);
    lemma_be_roundtrip(x, width);
    assert((be_bytes(x, width) + rest).take(width as int) =~= be_bytes(x, width));
    assert((be_bytes(x, width) + rest).skip(width as int) =~= rest);
}

/// Reading undoes writing, whatever follows the value in the buffer: a
/// value that can be encoded, and whose arrays are nested within the
/// budget, is read back from its encoding, and the read takes exactly the
/// bytes of the encoding.
pub proof fn lemma_roundtrip(v: Value, rest: Seq<u8>, budget: nat)
    requires
        v.representable(),
        v.nests_within(budget),
    ensures
        parse_value(encode_value(v) + rest, budget) == Ok::<(Value, nat), DecodeError>(
            (v, encode_value(v).len()),
        ),
    decreases v, 0nat,
{
    lemma_widths();
    let s = encode_value(v) + rest;
    let body = s.skip(1);
    match v {
        Value::Num(Int::Tiny(x)) => {
            assert(body =~= seq![x] + rest);
        },
        Value::Num(Int::Small(x)) => {
            lemma_be_head(x as nat, 2, rest);
            assert(body =~= be_bytes(x as nat, 2) + rest);
        },
        Value::Num(Int::Medium(x)) => {
            lemma_be_head(x as nat, 4, rest);
            assert(body =~= be_bytes(x as nat, 4) + rest);
        },
        Value::Num(Int::Large(x)) => {
            lemma_be_head(x as nat, 8, rest);
            assert(body =~= be_bytes(x as nat, 8) + rest);
        },
        Value::Num(Int::FloatS(x)) => {
            lemma_be_head(x as nat, 4, rest);
            assert(body =~= be_bytes(x as nat, 4) + rest);
        },
        Value::Num(Int::FloatL(x)) => {
            lemma_be_head(x as nat, 8, rest);
            assert(body =~= be_bytes(x as nat, 8) + rest);
        },
        Value::Bool(b) => {},
        Value::String(text) => {
            lemma_be_head(text.len(), 2, text + rest);
            assert(body =~= be_bytes(text.len(), 2) + (text + rest));
            assert(body.subrange(2, 2 + text.len() as int) =~= text);
        },
        Value::Error(e) => {
            let msg = e.err_msg;
            lemma_be_head(msg.len(), 2, msg + rest);
            let fields = body.skip(2);
            assert(fields =~= be_bytes(msg.len(), 2) + (msg + rest));
            assert(body.subrange(2, 4) =~= fields.take(2));
            assert(body.subrange(4, 4 + msg.len() as int) =~= msg);
        },
        Value::Array(items) => {
            let n = items.len();
            let elements = encode_items(items, n) + rest;
            lemma_be_head(n, 2, elements);
            assert(body =~= be_bytes(n, 2) + elements);
            lemma_items_roundtrip(items, n, rest, (budget - 1) as nat);
            assert(items.take(n as int) =~= items);
        },
    }
}

/// Reading undoes writing for the elements of an array: the first `k` of
/// them are read back from their encodings, whatever follows.
pub proof fn lemma_items_roundtrip(items: Seq<Value>, k: nat, rest: Seq<u8>, budget: nat)
    requires
        k <= items.len(),
        forall|i: int| 0 <= i < k ==> (#[trigger] items[i]).representable(),
        forall|i: int| 0 <= i < k ==> (#[trigger] items[i]).nests_within(budget),
    ensures
        parse_items(encode_items(items, k) + rest, k, budget) == Ok::<
            (Seq<Value>, nat),
            DecodeError,
        >((items.take(k as int), encode_items(items, k).len())),
    decreases items, k,
{
    if k == 0 {
        assert(items.take(0) =~= Seq::<Value>::empty());
    } else {
        let before = encode_items(items, (k - 1) as nat);
        let last = items[k - 1];
        let s = encode_items(items, k) + rest;
        assert(s =~= before + (encode_value(last) + rest));
        lemma_items_roundtrip(items, (k - 1) as nat, encode_value(last) + rest, budget);
        assert(s.skip(before.len() as int) =~= encode_value(last) + rest);
        lemma_roundtrip(last, rest, budget);
        assert(items.take(k - 1).push(last) =~= items.take(k as int));
    }
}

/// A value that has arrived only in part reads as too short: every proper
/// prefix of an encoding fails with `BufTooShort`.
pub proof fn lemma_prefix_too_short(v: Value, k: nat, budget: nat)
    requires
        v.representable(),
        v.nests_within(budget),
        k < encode_value(v).len(),
    ensures
        parse_value(encode_value(v).take(k as int), budget) matches Err(e) && e is BufTooShort,
    decreases v, 0nat,
{
    lemma_widths();
    let whole = encode_value(v);
    let s = whole.take(k as int);
    if k > 0 {
        let body = s.skip(1);
        assert(s[0] == whole[0]);
        match v {
            Value::Num(Int::Tiny(x)) => {},
            Value::Num(Int::Small(x)) => {
                lemma_be_bytes_len(x as nat, 2);
            },
            Value::Num(Int::Medium(x)) => {
                lemma_be_bytes_len(x as nat, 4);
            },
            Value::Num(Int::Large(x)) => {
                lemma_be_bytes_len(x as nat, 8);
            },
            Value::Num(Int::FloatS(x)) => {
                lemma_be_bytes_len(x as nat, 4);
            },
            Value::Num(Int::FloatL(x)) => {
                lemma_be_bytes_len(x as nat, 8);
            },
            Value::Bool(b) => {},
            Value::String(text) => {
                lemma_be_head(text.len(), 2, text);
                if k >= 3 {
                    assert(body.take(2) =~= be_bytes(text.len(), 2));
                }
            },
            Value::Error(e) => {
                let msg = e.err_msg;
                lemma_be_head(msg.len(), 2, msg);
                if k >= 5 {
                    assert(body.subrange(2, 4) =~= be_bytes(msg.len(), 2));
                }
            },
            Value::Array(items) => {
                let n = items.len();
                let elements = encode_items(items, n);
                lemma_be_head(n, 2, elements);
                if k >= 3 {
                    assert(body.take(2) =~= be_bytes(n, 2));
                    assert(body.skip(2) =~= elements.take(k - 3));
                    lemma_items_prefix_too_short(items, n, (k - 3) as nat, (budget - 1) as nat);
                }
            },
        }
    }
}

/// The elements of an array that have arrived only in part read as too
/// short.
pub proof fn lemma_items_prefix_too_short(items: Seq<Value>, m: nat, j: nat, budget: nat)
    requires
        m <= items.len(),
        forall|i: int| 0 <= i < m ==> (#[trigger] items[i]).representable(),
        forall|i: int| 0 <= i < m ==> (#[trigger] items[i]).nests_within(budget),
        j < encode_items(items, m).len(),
    ensures
        parse_items(encode_items(items, m).take(j as int), m, budget) matches Err(e)
            && e is BufTooShort,
    decreases items, m,
{
    let whole = encode_items(items, m);
    let s = whole.take(j as int);
    let before = encode_items(items, (m - 1) as nat);
    let last = items[m - 1];
    if j < before.len() {
        assert(s =~= before.take(j as int));
        lemma_items_prefix_too_short(items, (m - 1) as nat, j, budget);
    } else {
        let part = encode_value(last).take(j - before.len());
        assert(s =~= before + part);
        lemma_items_roundtrip(items, (m - 1) as nat, part, budget);
        assert(s.skip(before.len() as int) =~= part);
        lemma_prefix_too_short(last, (j - before.len()) as nat, budget);
    }
}

/// Roundtrip. A value whose strings, error messages and arrays have at
/// most `LENGTH_MAX` bytes or elements, and whose arrays are nested at
/// most `MAX_DEPTH` deep, is decoded from its encoding, and the decoder
/// takes exactly the bytes of the encoding off the buffer, whatever
/// follows them.
pub proof fn law_roundtrip(v: Value, rest: Seq<u8>)
    requires
        v.representable(),
        v.nests_within(MAX_DEPTH as nat),
    ensures
        parse_value(encode_value(v) + rest, MAX_DEPTH as nat) == Ok::<(Value, nat), DecodeError>(
            (v, encode_value(v).len()),
        ),
{
    lemma_roundtrip(v, rest, MAX_DEPTH as nat);
}

/// Resumable decode. Cut the encoding of such a value at any point before
/// its end: decoding the first part fails with `BufTooShort`, and decoding
/// the first part followed by the second yields the value. (That the
/// failure leaves the buffer as it was is stated where the decoder is.)
pub proof fn law_resumable_decode(v: Value, k: nat)
    requires
        v.representable(),
        v.nests_within(MAX_DEPTH as nat),
        k < encode_value(v).len(),
    ensures
        parse_value(encode_value(v).take(k as int), MAX_DEPTH as nat) matches Err(e)
            && e is BufTooShort,
        parse_value(
            encode_value(v).take(k as int) + encode_value(v).skip(k as int),
            MAX_DEPTH as nat,
        ) == Ok::<(Value, nat), DecodeError>((v, encode_value(v).len())),
{
    lemma_prefix_too_short(v, k, MAX_DEPTH as nat);
    lemma_roundtrip(v, Seq::empty(), MAX_DEPTH as nat);
    assert(encode_value(v).take(k as int) + encode_value(v).skip(k as int) =~= encode_value(v)
        + Seq::<u8>::empty());
}

/// Roundtrip of commands. A well-formed command whose operands can be
/// decoded is read back from its bytes, whatever follows them, and the
/// read takes exactly those bytes.
pub proof fn law_command_roundtrip(c: CommandValue, rest: Seq<u8>)
    requires
        c.well_formed(),
        c.decodable(),
    ensures
        parse_command(encode_command(c) + rest) == Ok::<(CommandValue, nat), DecodeError>(
            (c, encode_command(c).len()),
        ),
{
    let s = encode_command(c) + rest;
    let operands = s.skip(1);
    let key = encode_value(c.key);
    match c.val {
        Some(v) => {
            assert(operands =~= key + (encode_value(v) + rest));
            lemma_roundtrip(c.key, encode_value(v) + rest, MAX_DEPTH as nat);
            assert(operands.skip(key.len() as int) =~= encode_value(v) + rest);
            lemma_roundtrip(v, rest, MAX_DEPTH as nat);
        },
        None => {
            assert(operands =~= key + rest);
            lemma_roundtrip(c.key, rest, MAX_DEPTH as nat);
        },
    }
}

/// The operands of a command that have arrived only in part read as too
/// short.
pub proof fn lemma_operands_prefix_too_short(c: CommandValue, j: nat)
    requires
        c.well_formed(),
        c.decodable(),
        j < encode_command(c).len() - 1,
    ensures
        parse_operands(encode_command(c).skip(1).take(j as int), c.cmd_type) matches Err(e)
            && e is BufTooShort,
{
    let key = encode_value(c.key);
    let operands = encode_command(c).skip(1).take(j as int);
    if j < key.len() {
        assert(operands =~= key.take(j as int));
        lemma_prefix_too_short(c.key, j, MAX_DEPTH as nat);
    } else {
        let v = c.val->Some_0;
        let part = encode_value(v).take(j - key.len());
        assert(operands =~= key + part);
        lemma_roundtrip(c.key, part, MAX_DEPTH as nat);
        assert(parse_value(operands, MAX_DEPTH as nat) == Ok::<(Value, nat), DecodeError>(
            (c.key, key.len()),
        ));
        assert(operands.skip(key.len() as int) =~= part);
        lemma_prefix_too_short(v, (j - key.len()) as nat, MAX_DEPTH as nat);
    }
}

/// Resumable decode of commands. Cut the bytes of such a command at any
/// point before their end: reading the first part fails with
/// `BufTooShort`, and reading the first part followed by the second yields
/// the command. (That the failure leaves the buffer as it was, opcode
/// included, is stated where commands are read.)
pub proof fn law_command_resumable(c: CommandValue, k: nat)
    requires
        c.well_formed(),
        c.decodable(),
        k < encode_command(c).len(),
    ensures
        parse_command(encode_command(c).take(k as int)) matches Err(e) && e is BufTooShort,
        parse_command(encode_command(c).take(k as int) + encode_command(c).skip(k as int))
            == Ok::<(CommandValue, nat), DecodeError>((c, encode_command(c).len())),
{
    let whole = encode_command(c);
    let s = whole.take(k as int);
    if k > 0 {
        assert(s[0] == c.cmd_type.opcode());
        assert(s.skip(1) =~= whole.skip(1).take(k - 1));
        lemma_operands_prefix_too_short(c, (k - 1) as nat);
    }
    law_command_roundtrip(c, Seq::empty());
    assert(whole.take(k as int) + whole.skip(k as int) =~= whole + Seq::<u8>::empty());
}

/// Float key discipline. Two 32-bit floats whose bit patterns differ are
/// different keys: `==` tells them apart, also where the floats they
/// stand for would compare equal, as `+0.0` and `-0.0` do, and also where
/// both are NaN.
pub proof fn law_float_keys_distinct(x: DataType, y: DataType, a: u32, b: u32)
    requires
        x@ == Value::Num(Int::FloatS(a)),
        y@ == Value::Num(Int::FloatS(b)),
        a != b,
    ensures
        !x.eq_spec(&y),
{
}

/// The same for 64-bit floats.
pub proof fn law_double_keys_distinct(x: DataType, y: DataType, a: u64, b: u64)
    requires
        x@ == Value::Num(Int::FloatL(a)),
        y@ == Value::Num(Int::FloatL(b)),
        a != b,
    ensures
        !x.eq_spec(&y),
{
}

/// Widths are kept: numbers of different widths are different keys, even
/// where they hold the same number.
pub proof fn law_widths_distinct(x: DataType, y: DataType, a: u8, b: u16)
    requires
        x@ == Value::Num(Int::Tiny(a)),
        y@ == Value::Num(Int::Small(b)),
    ensures
        !x.eq_spec(&y),
{
}

} // verus!
