//! The wire format, as mathematics.
//!
//! An encoded value is a tag byte, then what the tag announces. Lengths
//! and element counts take two bytes, and every multi-byte integer is
//! written most significant byte first. `encode_value` says which bytes a
//! value is written as; `parse_value` says what the bytes at the head of a
//! buffer are read as. The encoder and the decoder are verified against
//! these two functions.

use crate::buffer::{be_bytes, be_value};
use crate::data_type::{ErrorValue, Int, Value};
use crate::errors::{DecodeError, Region};
use vstd::prelude::*;

verus! {

pub const TAG_TINY: u8 = 0;

pub const TAG_SMALL: u8 = 8;

pub const TAG_MEDIUM: u8 = 16;

pub const TAG_LARGE: u8 = 32;

pub const TAG_FLOAT_S: u8 = 48;

pub const TAG_FLOAT_L: u8 = 56;

pub const TAG_FALSE: u8 = 4;

pub const TAG_TRUE: u8 = 132;

pub const TAG_STRING: u8 = 2;

pub const TAG_ERROR: u8 = 6;

pub const TAG_ARRAY: u8 = 3;

/// How deep arrays may be nested in a value that the decoder accepts.
pub const MAX_DEPTH: usize = 128;

/// The bytes a value is written as.
pub open spec fn encode_value(v: Value) -> Seq<u8>
    decreases v, 0nat,
{
    match v {
        Value::Num(Int::Tiny(x)) => seq![TAG_TINY, x],
        Value::Num(Int::Small(x)) => seq![TAG_SMALL] + be_bytes(x as nat, 2),
        Value::Num(Int::Medium(x)) => seq![TAG_MEDIUM] + be_bytes(x as nat, 4),
        Value::Num(Int::Large(x)) => seq![TAG_LARGE] + be_bytes(x as nat, 8),
        Value::Num(Int::FloatS(x)) => seq![TAG_FLOAT_S] + be_bytes(x as nat, 4),
        Value::Num(Int::FloatL(x)) => seq![TAG_FLOAT_L] + be_bytes(x as nat, 8),
        Value::Bool(b) => seq![
            if b {
                TAG_TRUE
            } else {
                TAG_FALSE
            },
        ],
        Value::String(s) => seq![TAG_STRING] + be_bytes(s.len(), 2) + s,
        Value::Error(e) => seq![
            TAG_ERROR,
            if e.is_server_err {
                1u8
            } else {
                0u8
            },
            e.err_code,
        ] + be_bytes(e.err_msg.len(), 2) + e.err_msg,
        Value::Array(items) => seq![TAG_ARRAY] + be_bytes(items.len(), 2) + encode_items(
            items,
            items.len(),
        ),
    }
}

/// The encodings of the first `n` of `items`, one after the other.
pub open spec fn encode_items(items: Seq<Value>, n: nat) -> Seq<u8>
    decreases items, n,
{
    if n == 0 || n > items.len() {
        Seq::empty()
    } else {
        encode_items(items, (n - 1) as nat) + encode_value(items[n - 1])
    }
}

/// The error that a failure inside the array element `index` is reported
/// as. A shortfall names the element; any other error is passed on.
pub open spec fn in_element(e: DecodeError, index: nat) -> DecodeError {
    match e {
        DecodeError::BufTooShort(_) => DecodeError::BufTooShort(Region::ArrayElement(index as u16)),
        _ => e,
    }
}

/// What the bytes at the head of `s` are read as: a value and the number
/// of bytes it takes, or the first error met. Arrays may be nested `budget`
/// deep.
pub open spec fn parse_value(s: Seq<u8>, budget: nat) -> Result<(Value, nat), DecodeError>
    decreases budget, 0nat,
{
    if s.len() < 1 {
        Err(DecodeError::BufTooShort(Region::Tag))
    } else {
        let tag = s[0];
        let body = s.skip(1);
        if tag == TAG_TINY {
            if body.len() < 1 {
                Err(DecodeError::BufTooShort(Region::U8))
            } else {
                Ok((Value::Num(Int::Tiny(body[0])), 2))
            }
        } else if tag == TAG_SMALL {
            if body.len() < 2 {
                Err(DecodeError::BufTooShort(Region::U16))
            } else {
                Ok((Value::Num(Int::Small(be_value(body.take(2)) as u16)), 3))
            }
        } else if tag == TAG_MEDIUM {
            if body.len() < 4 {
                Err(DecodeError::BufTooShort(Region::U32))
            } else {
                Ok((Value::Num(Int::Medium(be_value(body.take(4)) as u32)), 5))
            }
        } else if tag == TAG_LARGE {
            if body.len() < 8 {
                Err(DecodeError::BufTooShort(Region::U64))
            } else {
                Ok((Value::Num(Int::Large(be_value(body.take(8)) as u64)), 9))
            }
        } else if tag == TAG_FLOAT_S {
            if body.len() < 4 {
                Err(DecodeError::BufTooShort(Region::F32))
            } else {
                Ok((Value::Num(Int::FloatS(be_value(body.take(4)) as u32)), 5))
            }
        } else if tag == TAG_FLOAT_L {
            if body.len() < 8 {
                Err(DecodeError::BufTooShort(Region::F64))
            } else {
                Ok((Value::Num(Int::FloatL(be_value(body.take(8)) as u64)), 9))
            }
        } else if tag == TAG_TRUE {
            Ok((Value::Bool(true), 1))
        } else if tag == TAG_FALSE {
            Ok((Value::Bool(false), 1))
        } else if tag == TAG_STRING {
            if body.len() < 2 {
                Err(DecodeError::BufTooShort(Region::StringHeader))
            } else {
                let len = be_value(body.take(2));
                if body.len() - 2 < len {
                    Err(DecodeError::BufTooShort(Region::StringBody))
                } else {
                    Ok((Value::String(body.subrange(2, 2 + len as int)), 3 + len))
                }
            }
        } else if tag == TAG_ERROR {
            if body.len() < 4 {
                Err(DecodeError::BufTooShort(Region::ErrorHeader))
            } else {
                let len = be_value(body.subrange(2, 4));
                if body.len() - 4 < len {
                    Err(DecodeError::BufTooShort(Region::ErrorValue))
                } else {
                    Ok(
                        (
                            Value::Error(
                                ErrorValue {
                                    is_server_err: body[0] != 0,
                                    err_code: body[1],
                                    err_msg: body.subrange(4, 4 + len as int),
                                },
                            ),
                            5 + len,
                        ),
                    )
                }
            }
        } else if tag == TAG_ARRAY {
            if budget == 0 {
                Err(DecodeError::DepthExceeded)
            } else if body.len() < 2 {
                Err(DecodeError::BufTooShort(Region::ArrayHeader))
            } else {
                match parse_items(body.skip(2), be_value(body.take(2)), (budget - 1) as nat) {
                    Ok((items, used)) => Ok((Value::Array(items), 3 + used)),
                    Err(e) => Err(e),
                }
            }
        } else {
            Err(DecodeError::UnknownTag(tag))
        }
    }
}

/// What the head of `s` is read as when `n` values are expected one after
/// the other: the values and the bytes they take together, or the error of
/// the first value that fails, as `in_element` reports it.
pub open spec fn parse_items(s: Seq<u8>, n: nat, budget: nat) -> Result<
    (Seq<Value>, nat),
    DecodeError,
>
    decreases budget, n + 1,
{
    if n == 0 {
        Ok((Seq::empty(), 0))
    } else {
        match parse_items(s, (n - 1) as nat, budget) {
            Err(e) => Err(e),
            Ok((items, used)) => match parse_value(s.skip(used as int), budget) {
                Ok((v, len)) => Ok((items.push(v), used + len)),
                Err(e) => Err(in_element(e, (n - 1) as nat)),
            },
        }
    }
}

} // verus!
