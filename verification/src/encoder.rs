//! The encoder: appends the encoding of a value to a buffer.
//!
//! A value is measured before the first byte is written, so a value that
//! cannot be encoded leaves the buffer untouched.

use crate::buffer::{
    be_bytes, contents, payload, payload_slice, put_slice, put_u16, put_u32, put_u64, put_u8,
};
use crate::data_type::{views, BoopError, DataType, Int, Value};
use crate::errors::EncodeError;
use crate::wire::{
    encode_items, encode_value, TAG_ARRAY, TAG_ERROR, TAG_FALSE, TAG_FLOAT_L, TAG_FLOAT_S,
    TAG_LARGE, TAG_MEDIUM, TAG_SMALL, TAG_STRING, TAG_TINY, TAG_TRUE,
};
use bytes::BytesMut;
use vstd::prelude::*;

verus! {

/// The longest string, error message or array that can be encoded: what a
/// 16-bit length field can say.
pub const LENGTH_MAX: usize = 0xFFFF;

/// A number written in `width` digits takes `width` bytes.
pub proof fn lemma_be_bytes_len(x: nat, width: nat)
    ensures
        be_bytes(x, width).len() == width,
    decreases width,
{
    if width > 0 {
        lemma_be_bytes_len(x / 256, (width - 1) as nat);
    }
}

/// The encodings of more elements take at least as many bytes.
pub proof fn lemma_encode_items_grows(items: Seq<Value>, i: nat, n: nat)
    requires
        i <= n <= items.len(),
    ensures
        encode_items(items, i).len() <= encode_items(items, n).len(),
    decreases n - i,
{
    if i < n {
        lemma_encode_items_grows(items, i, (n - 1) as nat);
    }
}

/// What is left of `room` once `need` bytes are taken from it.
fn take_room(room: usize, need: usize) -> (left: Option<usize>)
    ensures
        match left {
            Some(k) => need + k == room,
            None => need > room,
        },
{
    if need > room {
        None
    } else {
        Some(room - need)
    }
}

/// Measures a value against the `room` there is for it: what is left of
/// the room once the value is encoded, or `None` when the value cannot be
/// encoded or takes more than the room.
fn measure(value: &DataType, room: usize) -> (left: Option<usize>)
    ensures
        match left {
            Some(k) => value@.representable() && encode_value(value@).len() + k == room,
            None => !value@.representable() || encode_value(value@).len() > room,
        },
    decreases value,
{
    match value {
        DataType::Num(n) => {
            match n {
                Int::Tiny(_) => take_room(room, 2),
                Int::Small(x) => {
                    proof {
                        lemma_be_bytes_len(*x as nat, 2);
                    }
                    take_room(room, 3)
                },
                Int::Medium(x) => {
                    proof {
                        lemma_be_bytes_len(*x as nat, 4);
                    }
                    take_room(room, 5)
                },
                Int::Large(x) => {
                    proof {
                        lemma_be_bytes_len(*x as nat, 8);
                    }
                    take_room(room, 9)
                },
                Int::FloatS(x) => {
                    proof {
                        lemma_be_bytes_len(*x as nat, 4);
                    }
                    take_room(room, 5)
                },
                Int::FloatL(x) => {
                    proof {
                        lemma_be_bytes_len(*x as nat, 8);
                    }
                    take_room(room, 9)
                },
            }
        },
        DataType::Bool(_) => take_room(room, 1),
        DataType::String(s) => {
            let len: usize = s.0.len();
            if len > LENGTH_MAX {
                return None;
            }
            proof {
                lemma_be_bytes_len(len as nat, 2);
            }
            take_room(room, 3 + len)
        },
        DataType::Error(e) => {
            let len: usize = e.err_msg.len();
            if len > LENGTH_MAX {
                return None;
            }
            proof {
                lemma_be_bytes_len(len as nat, 2);
            }
            take_room(room, 5 + len)
        },
        DataType::Array(a) => {
            let count: usize = a.0.len();
            let ghost items = views(a.0@);
            assert(value@ == Value::Array(items));
            if count > LENGTH_MAX {
                return None;
            }
            proof {
                lemma_be_bytes_len(count as nat, 2);
            }
            assert(encode_value(value@).len() == 3 + encode_items(items, count as nat).len());
            let mut left: usize = match take_room(room, 3) {
                None => {
                    return None;
                },
                Some(k) => k,
            };
            let mut i: usize = 0;
            while i < count
                invariant
                    i <= count,
                    count == a.0.len(),
                    count <= LENGTH_MAX,
                    value is Array,
                    value->Array_0 == *a,
                    items == views(a.0@),
                    encode_value(value@).len() == 3 + encode_items(items, count as nat).len(),
                    3 + encode_items(items, i as nat).len() + left == room,
                    forall|j: int| 0 <= j < i ==> (#[trigger] items[j]).representable(),
                decreases count - i,
            {
                proof {
                    lemma_encode_items_grows(items, (i + 1) as nat, count as nat);
                }
                assert(decreases_to!(a.0 => a.0[i as int]));
                assert(items[i as int] == a.0[i as int]@);
                match measure(&a.0[i], left) {
                    None => {
                        return None;
                    },
                    Some(k) => {
                        left = k;
                    },
                }
                i += 1;
            }
            Some(left)
        },
    }
}

/// Appends the encoding of an error.
pub(crate) fn write_error(e: &BoopError, buf: &mut BytesMut)
    requires
        payload(e.err_msg).len() <= LENGTH_MAX,
        contents(*old(buf)).len() + 5 + payload(e.err_msg).len() <= isize::MAX,
    ensures
        contents(*final(buf)) == contents(*old(buf)) + encode_value(Value::Error(e@)),
{
    proof {
        lemma_be_bytes_len(payload(e.err_msg).len(), 2);
    }
    put_u8(buf, TAG_ERROR);
    if e.is_server_err {
        put_u8(buf, 1);
    } else {
        put_u8(buf, 0);
    }
    put_u8(buf, e.err_code);
    put_u16(buf, e.err_msg.len() as u16);
    put_slice(buf, payload_slice(&e.err_msg));
    assert(contents(*buf) =~= contents(*old(buf)) + encode_value(Value::Error(e@)));
}

/// Appends the encoding of a value that is known to fit.
fn write_value(value: &DataType, buf: &mut BytesMut)
    requires
        value@.representable(),
        contents(*old(buf)).len() + encode_value(value@).len() <= isize::MAX,
    ensures
        contents(*final(buf)) == contents(*old(buf)) + encode_value(value@),
    decreases value,
{
    match value {
        DataType::Num(n) => {
            match n {
                Int::Tiny(x) => {
                    put_u8(buf, TAG_TINY);
                    put_u8(buf, *x);
                },
                Int::Small(x) => {
                    proof {
                        lemma_be_bytes_len(*x as nat, 2);
                    }
                    put_u8(buf, TAG_SMALL);
                    put_u16(buf, *x);
                },
                Int::Medium(x) => {
                    proof {
                        lemma_be_bytes_len(*x as nat, 4);
                    }
                    put_u8(buf, TAG_MEDIUM);
                    put_u32(buf, *x);
                },
                Int::Large(x) => {
                    proof {
                        lemma_be_bytes_len(*x as nat, 8);
                    }
                    put_u8(buf, TAG_LARGE);
                    put_u64(buf, *x);
                },
                Int::FloatS(x) => {
                    proof {
                        lemma_be_bytes_len(*x as nat, 4);
                    }
                    put_u8(buf, TAG_FLOAT_S);
                    put_u32(buf, *x);
                },
                Int::FloatL(x) => {
                    proof {
                        lemma_be_bytes_len(*x as nat, 8);
                    }
                    put_u8(buf, TAG_FLOAT_L);
                    put_u64(buf, *x);
                },
            }
            assert(contents(*buf) =~= contents(*old(buf)) + encode_value(value@));
        },
        DataType::Bool(b) => {
            if b.0 {
                put_u8(buf, TAG_TRUE);
            } else {
                put_u8(buf, TAG_FALSE);
            }
            assert(contents(*buf) =~= contents(*old(buf)) + encode_value(value@));
        },
        DataType::String(s) => {
            proof {
                lemma_be_bytes_len(payload(s.0).len(), 2);
            }
            put_u8(buf, TAG_STRING);
            put_u16(buf, s.0.len() as u16);
            put_slice(buf, payload_slice(&s.0));
            assert(contents(*buf) =~= contents(*old(buf)) + encode_value(value@));
        },
        DataType::Error(e) => {
            proof {
                lemma_be_bytes_len(payload(e.err_msg).len(), 2);
            }
            write_error(e, buf);
        },
        DataType::Array(a) => {
            let count: usize = a.0.len();
            let ghost items = views(a.0@);
            proof {
                lemma_be_bytes_len(count as nat, 2);
            }
            put_u8(buf, TAG_ARRAY);
            put_u16(buf, count as u16);
            let ghost head = contents(*old(buf)) + seq![TAG_ARRAY] + be_bytes(count as nat, 2);
            assert(contents(*buf) =~= head);
            let mut i: usize = 0;
            while i < count
                invariant
                    i <= count,
                    count == a.0.len(),
                    value is Array,
                    value->Array_0 == *a,
                    value@.representable(),
                    items == views(a.0@),
                    head.len() == contents(*old(buf)).len() + 3,
                    contents(*old(buf)).len() + 3 + encode_items(items, count as nat).len()
                        <= isize::MAX,
                    contents(*buf) == head + encode_items(items, i as nat),
                decreases count - i,
            {
                proof {
                    lemma_encode_items_grows(items, (i + 1) as nat, count as nat);
                }
                assert(decreases_to!(a.0 => a.0[i as int]));
                assert(items[i as int] == a.0[i as int]@);
                assert(items[i as int].representable());
                write_value(&a.0[i], buf);
                assert(contents(*buf) =~= head + encode_items(items, (i + 1) as nat));
                i += 1;
            }
            assert(contents(*buf) =~= contents(*old(buf)) + encode_value(value@));
        },
    }
}

/// Appends the encoding of `value` to `buf`.
///
/// A value that holds a string, an error message or an array of more than
/// `LENGTH_MAX` bytes or elements is rejected, and so is one whose encoding
/// would grow the buffer beyond what memory can address. The buffer is
/// then left as it was.
pub fn handle_encode(value: &DataType, buf: &mut BytesMut) -> (r: Result<(), EncodeError>)
    ensures
        match r {
            Ok(_) => value@.representable() && contents(*final(buf)) == contents(*old(buf))
                + encode_value(value@),
            Err(e) => e == EncodeError::LengthOverflow && contents(*final(buf)) == contents(
                *old(buf),
            ) && (!value@.representable() || contents(*old(buf)).len() + encode_value(
                value@,
            ).len() > isize::MAX),
        },
{
    let used: usize = buf.len();
    let limit: usize = isize::MAX as usize;
    if used > limit {
        return Err(EncodeError::LengthOverflow);
    }
    match measure(value, limit - used) {
        None => Err(EncodeError::LengthOverflow),
        Some(_) => {
            write_value(value, buf);
            Ok(())
        },
    }
}

} // verus!
