//! The decoder: reads one value from the head of a buffer.
//!
//! A value is read in two steps. First the buffer is scanned in place,
//! against a cursor, to see whether a whole value is there and where it
//! ends. Only then is the value taken off the buffer. A buffer that ends
//! too early is therefore left exactly as it was, and the same call
//! succeeds once the missing bytes have arrived. The bytes of a string or
//! of an error message are not copied: they are split off the buffer and
//! shared with it.

use crate::buffer::{be_value, consume, contents, pending, take_bytes};
use crate::data_type::{
    views, BoopArray, BoopBool, BoopError, BoopString, DataType, Int, Value,
};
use crate::errors::{DecodeError, Region};
use crate::wire::{
    in_element, parse_items, parse_value, MAX_DEPTH, TAG_ARRAY, TAG_ERROR, TAG_FALSE, TAG_FLOAT_L,
    TAG_FLOAT_S, TAG_LARGE, TAG_MEDIUM, TAG_SMALL, TAG_STRING, TAG_TINY, TAG_TRUE,
};
use bytes::BytesMut;
use vstd::prelude::*;

verus! {

/// Appending a digit multiplies by the base and adds the digit.
pub proof fn lemma_be_value_push(s: Seq<u8>, b: u8)
    ensures
        be_value(s.push(b)) == be_value(s) * 256 + b as nat,
{
    assert(s.push(b).drop_last() =~= s);
}

/// The big-endian number in the `width` bytes of `s` that start at `at`,
/// built up one byte at a time.
proof fn lemma_be_value_step(s: Seq<u8>, at: int, width: int)
    requires
        0 <= at,
        0 <= width,
        at + width < s.len(),
    ensures
        be_value(s.subrange(at, at + width + 1)) == be_value(s.subrange(at, at + width)) * 256
            + s[at + width] as nat,
{
    assert(s.subrange(at, at + width + 1) =~= s.subrange(at, at + width).push(s[at + width]));
    lemma_be_value_push(s.subrange(at, at + width), s[at + width]);
}

/// Reads two bytes as a big-endian number.
fn read_u16(s: &[u8], at: usize) -> (r: u16)
    requires
        at + 2 <= s.len(),
    ensures
        r == be_value(s@.subrange(at as int, at + 2)),
{
    proof {
        lemma_be_value_step(s@, at as int, 0);
        lemma_be_value_step(s@, at as int, 1);
    }
    let b0: u16 = s[at] as u16;
    let b1: u16 = s[at + 1] as u16;
    b0 * 256 + b1
}

/// Reads four bytes as a big-endian number.
fn read_u32(s: &[u8], at: usize) -> (r: u32)
    requires
        at + 4 <= s.len(),
    ensures
        r == be_value(s@.subrange(at as int, at + 4)),
{
    proof {
        lemma_be_value_step(s@, at as int, 0);
        lemma_be_value_step(s@, at as int, 1);
        lemma_be_value_step(s@, at as int, 2);
        lemma_be_value_step(s@, at as int, 3);
    }
    let b0: u32 = s[at] as u32;
    let b1: u32 = s[at + 1] as u32;
    let b2: u32 = s[at + 2] as u32;
    let b3: u32 = s[at + 3] as u32;
    ((b0 * 256 + b1) * 256 + b2) * 256 + b3
}

/// Reads eight bytes as a big-endian number.
fn read_u64(s: &[u8], at: usize) -> (r: u64)
    requires
        at + 8 <= s.len(),
    ensures
        r == be_value(s@.subrange(at as int, at + 8)),
{
    proof {
        lemma_be_value_step(s@, at as int, 0);
        lemma_be_value_step(s@, at as int, 1);
        lemma_be_value_step(s@, at as int, 2);
        lemma_be_value_step(s@, at as int, 3);
        lemma_be_value_step(s@, at as int, 4);
        lemma_be_value_step(s@, at as int, 5);
        lemma_be_value_step(s@, at as int, 6);
        lemma_be_value_step(s@, at as int, 7);
    }
    let hi: u64 = read_u32(s, at) as u64;
    let b4: u64 = s[at + 4] as u64;
    let b5: u64 = s[at + 5] as u64;
    let b6: u64 = s[at + 6] as u64;
    let b7: u64 = s[at + 7] as u64;
    (((hi * 256 + b4) * 256 + b5) * 256 + b6) * 256 + b7
}

/// Checks that at least `n` bytes follow the position `at`; if not, the
/// buffer ends in `region`.
fn check_header(s: &[u8], at: usize, n: usize, region: Region) -> (r: Result<(), DecodeError>)
    requires
        at <= s.len(),
    ensures
        match r {
            Ok(_) => s.len() - at >= n,
            Err(e) => s.len() - at < n && e == DecodeError::BufTooShort(region),
        },
{
    if s.len() - at < n {
        return Err(DecodeError::BufTooShort(region));
    }
    Ok(())
}

/// Once reading `n` values has failed, expecting more of them fails in the
/// same way.
pub proof fn lemma_items_error_stays(s: Seq<u8>, n: nat, m: nat, budget: nat)
    requires
        n <= m,
        parse_items(s, n, budget) is Err,
    ensures
        parse_items(s, m, budget) == parse_items(s, n, budget),
    decreases m - n,
{
    if n < m {
        lemma_items_error_stays(s, n, (m - 1) as nat, budget);
    }
}

/// Scans the value that starts at the position `at` of `s`, and says where
/// it ends. Nothing is built and nothing is taken.
pub(crate) fn scan_at(s: &[u8], at: usize, budget: usize) -> (r: Result<usize, DecodeError>)
    requires
        at <= s.len(),
    ensures
        match parse_value(s@.skip(at as int), budget as nat) {
            Ok((_, n)) => r matches Ok(end) && end == at + n && end <= s.len(),
            Err(e) => r matches Err(x) && x == e,
        },
    decreases budget,
{
    let ghost rest = s@.skip(at as int);
    let ghost body = rest.skip(1);
    if s.len() - at < 1 {
        return Err(DecodeError::BufTooShort(Region::Tag));
    }
    let meta_byte = s[at];
    assert(rest[0] == meta_byte);
    let from: usize = at + 1;
    assert(body =~= s@.skip(from as int));
    if meta_byte == TAG_TINY {
        match check_header(s, from, 1, Region::U8) {
            Err(e) => Err(e),
            Ok(_) => Ok(from + 1),
        }
    } else if meta_byte == TAG_SMALL {
        match check_header(s, from, 2, Region::U16) {
            Err(e) => Err(e),
            Ok(_) => Ok(from + 2),
        }
    } else if meta_byte == TAG_MEDIUM {
        match check_header(s, from, 4, Region::U32) {
            Err(e) => Err(e),
            Ok(_) => Ok(from + 4),
        }
    } else if meta_byte == TAG_LARGE {
        match check_header(s, from, 8, Region::U64) {
            Err(e) => Err(e),
            Ok(_) => Ok(from + 8),
        }
    } else if meta_byte == TAG_FLOAT_S {
        match check_header(s, from, 4, Region::F32) {
            Err(e) => Err(e),
            Ok(_) => Ok(from + 4),
        }
    } else if meta_byte == TAG_FLOAT_L {
        match check_header(s, from, 8, Region::F64) {
            Err(e) => Err(e),
            Ok(_) => Ok(from + 8),
        }
    } else if meta_byte == TAG_TRUE {
        Ok(from)
    } else if meta_byte == TAG_FALSE {
        Ok(from)
    } else if meta_byte == TAG_STRING {
        match check_header(s, from, 2, Region::StringHeader) {
            Err(e) => Err(e),
            Ok(_) => {
                assert(body.take(2) =~= s@.subrange(from as int, from + 2));
                let str_len: usize = read_u16(s, from) as usize;
                let start: usize = from + 2;
                match check_header(s, start, str_len, Region::StringBody) {
                    Err(e) => Err(e),
                    Ok(_) => Ok(start + str_len),
                }
            },
        }
    } else if meta_byte == TAG_ERROR {
        match check_header(s, from, 4, Region::ErrorHeader) {
            Err(e) => Err(e),
            Ok(_) => {
                assert(body.subrange(2, 4) =~= s@.subrange(from + 2, from + 4));
                let err_len: usize = read_u16(s, from + 2) as usize;
                let start: usize = from + 4;
                match check_header(s, start, err_len, Region::ErrorValue) {
                    Err(e) => Err(e),
                    Ok(_) => Ok(start + err_len),
                }
            },
        }
    } else if meta_byte == TAG_ARRAY {
        if budget == 0 {
            return Err(DecodeError::DepthExceeded);
        }
        match check_header(s, from, 2, Region::ArrayHeader) {
            Err(e) => Err(e),
            Ok(_) => {
                assert(body.take(2) =~= s@.subrange(from as int, from + 2));
                let element_length: u16 = read_u16(s, from);
                let start: usize = from + 2;
                let ghost elements = s@.skip(start as int);
                let ghost inner = (budget - 1) as nat;
                assert(body.skip(2) =~= elements);
                let mut cur: usize = start;
                let mut index: u16 = 0;
                while index < element_length
                    invariant
                        parse_value(s@.skip(at as int), budget as nat) == match parse_items(
                            elements,
                            element_length as nat,
                            inner,
                        ) {
                            Ok((items, used)) => Ok::<(Value, nat), DecodeError>(
                                (Value::Array(items), 3 + used),
                            ),
                            Err(e) => Err(e),
                        },
                        start <= cur <= s.len(),
                        start == at + 3,
                        index <= element_length,
                        budget > 0,
                        inner == budget - 1,
                        elements == s@.skip(start as int),
                        parse_items(elements, index as nat, inner) is Ok,
                        parse_items(elements, index as nat, inner)->Ok_0.1 == cur - start,
                    decreases element_length - index,
                {
                    assert(elements.skip(cur - start) =~= s@.skip(cur as int));
                    match scan_at(s, cur, budget - 1) {
                        Ok(end) => {
                            cur = end;
                            index += 1;
                        },
                        Err(e) => {
                            proof {
                                assert(parse_items(elements, (index + 1) as nat, inner) == Err::<
                                    (Seq<Value>, nat),
                                    DecodeError,
                                >(in_element(e, index as nat)));
                                lemma_items_error_stays(
                                    elements,
                                    (index + 1) as nat,
                                    element_length as nat,
                                    inner,
                                );
                            }
                            return Err(
                                match e {
                                    DecodeError::BufTooShort(_) => DecodeError::BufTooShort(
                                        Region::ArrayElement(index),
                                    ),
                                    other => other,
                                },
                            );
                        },
                    }
                }
                Ok(cur)
            },
        }
    } else {
        Err(DecodeError::UnknownTag(meta_byte))
    }
}

/// Where reading `m` values succeeds, reading fewer of them does too.
pub proof fn lemma_items_ok_before(s: Seq<u8>, n: nat, m: nat, budget: nat)
    requires
        n <= m,
        parse_items(s, m, budget) is Ok,
    ensures
        parse_items(s, n, budget) is Ok,
{
    if parse_items(s, n, budget) is Err {
        lemma_items_error_stays(s, n, m, budget);
    }
}

/// Takes the value at the head of `buf` off the buffer. The caller has
/// made sure that a whole value is there.
pub(crate) fn take_value(buf: &mut BytesMut, budget: usize) -> (d: DataType)
    requires
        parse_value(contents(*old(buf)), budget as nat) is Ok,
    ensures
        d@ == parse_value(contents(*old(buf)), budget as nat)->Ok_0.0,
        parse_value(contents(*old(buf)), budget as nat)->Ok_0.1 <= contents(*old(buf)).len(),
        contents(*final(buf)) == contents(*old(buf)).skip(
            parse_value(contents(*old(buf)), budget as nat)->Ok_0.1 as int,
        ),
    decreases budget,
{
    let ghost whole = contents(*buf);
    let ghost body = whole.skip(1);
    let meta_byte = pending(buf)[0];
    if meta_byte == TAG_TINY {
        let v = pending(buf)[1];
        consume(buf, 2);
        Int::new_u8(v)
    } else if meta_byte == TAG_SMALL {
        assert(body.take(2) =~= whole.subrange(1, 3));
        let v = read_u16(pending(buf), 1);
        consume(buf, 3);
        Int::new_u16(v)
    } else if meta_byte == TAG_MEDIUM {
        assert(body.take(4) =~= whole.subrange(1, 5));
        let v = read_u32(pending(buf), 1);
        consume(buf, 5);
        Int::new_u32(v)
    } else if meta_byte == TAG_LARGE {
        assert(body.take(8) =~= whole.subrange(1, 9));
        let v = read_u64(pending(buf), 1);
        consume(buf, 9);
        Int::new_u64(v)
    } else if meta_byte == TAG_FLOAT_S {
        assert(body.take(4) =~= whole.subrange(1, 5));
        let v = read_u32(pending(buf), 1);
        consume(buf, 5);
        Int::new_f32(v)
    } else if meta_byte == TAG_FLOAT_L {
        assert(body.take(8) =~= whole.subrange(1, 9));
        let v = read_u64(pending(buf), 1);
        consume(buf, 9);
        Int::new_f64(v)
    } else if meta_byte == TAG_TRUE {
        consume(buf, 1);
        BoopBool::new_wrapped(true)
    } else if meta_byte == TAG_FALSE {
        consume(buf, 1);
        BoopBool::new_wrapped(false)
    } else if meta_byte == TAG_STRING {
        assert(body.take(2) =~= whole.subrange(1, 3));
        let str_len: usize = read_u16(pending(buf), 1) as usize;
        consume(buf, 3);
        assert(contents(*buf).take(str_len as int) =~= body.subrange(2, 2 + str_len));
        let text = take_bytes(buf, str_len);
        assert(contents(*buf) =~= whole.skip(3 + str_len));
        BoopString::new_wrapped(text)
    } else if meta_byte == TAG_ERROR {
        let is_server_err = pending(buf)[1];
        let err_code = pending(buf)[2];
        assert(body.subrange(2, 4) =~= whole.subrange(3, 5));
        let err_len: usize = read_u16(pending(buf), 3) as usize;
        consume(buf, 5);
        assert(contents(*buf).take(err_len as int) =~= body.subrange(4, 4 + err_len));
        let err_msg = take_bytes(buf, err_len);
        assert(contents(*buf) =~= whole.skip(5 + err_len));
        BoopError::new_wrapped(is_server_err != 0, err_code, err_msg)
    } else {
        assert(meta_byte == TAG_ARRAY);
        assert(body.take(2) =~= whole.subrange(1, 3));
        let element_length: u16 = read_u16(pending(buf), 1);
        consume(buf, 3);
        let ghost elements = whole.skip(3);
        let ghost inner = (budget - 1) as nat;
        let ghost mut used: nat = 0;
        assert(body.skip(2) =~= elements);
        assert(elements.skip(0) =~= elements);
        let mut data: Vec<DataType> = Vec::new();
        let mut index: u16 = 0;
        assert(views(data@) =~= Seq::<Value>::empty());
        while index < element_length
            invariant
                index <= element_length,
                budget > 0,
                inner == budget - 1,
                used <= elements.len(),
                parse_items(elements, element_length as nat, inner) is Ok,
                parse_items(elements, index as nat, inner) == Ok::<
                    (Seq<Value>, nat),
                    DecodeError,
                >((views(data@), used)),
                contents(*buf) == elements.skip(used as int),
            decreases element_length - index,
        {
            proof {
                lemma_items_ok_before(
                    elements,
                    (index + 1) as nat,
                    element_length as nat,
                    inner,
                );
            }
            let ghost before = views(data@);
            let ghost len = parse_value(elements.skip(used as int), inner)->Ok_0.1;
            let item = take_value(buf, budget - 1);
            data.push(item);
            proof {
                assert(views(data@) =~= before.push(item@));
                assert(elements.skip(used as int).skip(len as int) =~= elements.skip(
                    (used + len) as int,
                ));
                used = used + len;
            }
            index += 1;
        }
        assert(contents(*buf) =~= whole.skip(3 + used as int));
        BoopArray::new_wrapped(data)
    }
}

/// Reads one value from the head of `buf`.
///
/// On success the value's bytes are taken off the buffer. On any error
/// the buffer is left as it was, byte for byte; after `BufTooShort` the
/// caller appends what arrives next and calls again.
pub fn handle_decode(buf: &mut BytesMut) -> (r: Result<DataType, DecodeError>)
    ensures
        match parse_value(contents(*old(buf)), MAX_DEPTH as nat) {
            Ok((v, n)) => r matches Ok(d) && d@ == v && contents(*final(buf)) == contents(
                *old(buf),
            ).skip(n as int),
            Err(e) => r matches Err(x) && x == e && contents(*final(buf)) == contents(*old(buf)),
        },
{
    assert(contents(*buf).skip(0) =~= contents(*buf));
    match scan_at(pending(buf), 0, MAX_DEPTH) {
        Err(e) => Err(e),
        Ok(_) => Ok(take_value(buf, MAX_DEPTH)),
    }
}

} // verus!
