//! The values of the store: the data types that serve as keys and as values
//! alike, and the mathematical value each one stands for.

use crate::buffer::{payload, same_payload};
use crate::encoder::{write_error, LENGTH_MAX};
use crate::errors::EncodeError;
use bytes::{Bytes, BytesMut};
use vstd::prelude::*;
use vstd::std_specs::cmp::PartialEqSpecImpl;

verus! {

/// A number of one of six widths. Two numbers are equal only when they have
/// the same width and the same bits: a small `1` is no tiny `1`.
///
/// A float is held as its IEEE-754 bit pattern, by which it is compared and
/// hashed. So `+0.0` and `-0.0` are different keys, and two NaNs are the
/// same key only when every bit agrees.
#[derive(Debug, Clone, Copy, PartialEq, Eq, Hash, Structural)]
pub enum Int {
    Tiny(u8),
    Medium(u32),
    Small(u16),
    Large(u64),
    FloatS(u32),
    FloatL(u64),
}

/// A boolean.
#[derive(Debug, Clone, Copy, PartialEq, Eq, Hash, Structural)]
pub struct BoopBool(pub bool);

/// A byte string. The bytes are shared, not copied, when the value is cloned.
#[derive(Debug, Hash)]
pub struct BoopString(pub Bytes);

/// An error that travels as data: who raised it, a code, and a message.
#[derive(Debug, Hash)]
pub struct BoopError {
    pub is_server_err: bool,
    pub err_code: u8,
    pub err_msg: Bytes,
}

/// A sequence of values, which may themselves be arrays.
#[derive(Debug, Hash)]
pub struct BoopArray(pub Vec<DataType>);

/// Any value that can be encoded: a key or a value of the store.
#[derive(Debug, Hash)]
pub enum DataType {
    Num(Int),
    Bool(BoopBool),
    String(BoopString),
    Error(BoopError),
    Array(BoopArray),
}

/// What a `BoopError` stands for.
pub struct ErrorValue {
    pub is_server_err: bool,
    pub err_code: u8,
    pub err_msg: Seq<u8>,
}

/// What a `DataType` stands for: the same tree, with every byte container
/// replaced by the bytes it holds.
pub enum Value {
    Num(Int),
    Bool(bool),
    String(Seq<u8>),
    Error(ErrorValue),
    Array(Seq<Value>),
}

impl Value {
    /// Every string, error message and array in the value has a length
    /// that a 16-bit field can say.
    pub open spec fn representable(self) -> bool
        decreases self,
    {
        match self {
            Value::Num(_) => true,
            Value::Bool(_) => true,
            Value::String(s) => s.len() <= LENGTH_MAX,
            Value::Error(e) => e.err_msg.len() <= LENGTH_MAX,
            Value::Array(items) => items.len() <= LENGTH_MAX && forall|i: int|
                0 <= i < items.len() ==> (#[trigger] items[i]).representable(),
        }
    }

    /// Arrays in the value are nested at most `budget` deep. A value
    /// without arrays nests within zero.
    pub open spec fn nests_within(self, budget: nat) -> bool
        decreases self,
    {
        match self {
            Value::Array(items) => budget > 0 && forall|i: int|
                0 <= i < items.len() ==> (#[trigger] items[i]).nests_within((budget - 1) as nat),
            _ => true,
        }
    }
}

/// What each of `items` stands for, in the same order.
pub open spec fn views(items: Seq<DataType>) -> Seq<Value>
    decreases items,
{
    Seq::new(
        items.len(),
        |i: int|
            if 0 <= i < items.len() {
                items[i].view()
            } else {
                Value::Bool(false)
            },
    )
}

impl View for BoopBool {
    type V = bool;

    open spec fn view(&self) -> bool {
        self.0
    }
}

impl View for BoopString {
    type V = Seq<u8>;

    open spec fn view(&self) -> Seq<u8> {
        payload(self.0)
    }
}

impl View for BoopError {
    type V = ErrorValue;

    open spec fn view(&self) -> ErrorValue {
        ErrorValue {
            is_server_err: self.is_server_err,
            err_code: self.err_code,
            err_msg: payload(self.err_msg),
        }
    }
}

impl View for BoopArray {
    type V = Seq<Value>;

    open spec fn view(&self) -> Seq<Value> {
        views(self.0@)
    }
}

impl View for DataType {
    type V = Value;

    open spec fn view(&self) -> Value
        decreases self,
    {
        match self {
            DataType::Num(n) => Value::Num(*n),
            DataType::Bool(b) => Value::Bool(b.0),
            DataType::String(s) => Value::String(payload(s.0)),
            DataType::Error(e) => Value::Error(
                ErrorValue {
                    is_server_err: e.is_server_err,
                    err_code: e.err_code,
                    err_msg: payload(e.err_msg),
                },
            ),
            DataType::Array(a) => Value::Array(views(a.0@)),
        }
    }
}

impl Int {
    pub fn new_u8(v: u8) -> (r: DataType)
        ensures
            r@ == Value::Num(Int::Tiny(v)),
    {
        DataType::Num(Int::Tiny(v))
    }

    pub fn new_u16(v: u16) -> (r: DataType)
        ensures
            r@ == Value::Num(Int::Small(v)),
    {
        DataType::Num(Int::Small(v))
    }

    pub fn new_u32(v: u32) -> (r: DataType)
        ensures
            r@ == Value::Num(Int::Medium(v)),
    {
        DataType::Num(Int::Medium(v))
    }

    pub fn new_u64(v: u64) -> (r: DataType)
        ensures
            r@ == Value::Num(Int::Large(v)),
    {
        DataType::Num(Int::Large(v))
    }

    /// A 32-bit float, given by its bit pattern.
    pub fn new_f32(bits: u32) -> (r: DataType)
        ensures
            r@ == Value::Num(Int::FloatS(bits)),
    {
        DataType::Num(Int::FloatS(bits))
    }

    /// A 64-bit float, given by its bit pattern.
    pub fn new_f64(bits: u64) -> (r: DataType)
        ensures
            r@ == Value::Num(Int::FloatL(bits)),
    {
        DataType::Num(Int::FloatL(bits))
    }
}

impl BoopBool {
    pub fn new_wrapped(v: bool) -> (r: DataType)
        ensures
            r@ == Value::Bool(v),
    {
        DataType::Bool(Self(v))
    }
}

impl BoopString {
    pub fn new_wrapped(v: Bytes) -> (r: DataType)
        ensures
            r@ == Value::String(payload(v)),
    {
        DataType::String(BoopString(v))
    }
}

impl BoopError {
    pub fn new_unwrapped(is_server_err: bool, err_code: u8, err_msg: Bytes) -> (r: Self)
        ensures
            r@ == (ErrorValue { is_server_err, err_code, err_msg: payload(err_msg) }),
    {
        Self { is_server_err, err_code, err_msg }
    }

    pub fn wrap(self) -> (r: DataType)
        ensures
            r@ == Value::Error(self@),
    {
        DataType::Error(self)
    }

    pub fn new_wrapped(is_server_err: bool, err_code: u8, err_msg: Bytes) -> (r: DataType)
        ensures
            r@ == Value::Error(ErrorValue { is_server_err, err_code, err_msg: payload(err_msg) }),
    {
        BoopError::wrap(BoopError::new_unwrapped(is_server_err, err_code, err_msg))
    }

    /// The error's encoding, in a buffer of its own. A message longer than
    /// a 16-bit length field can say is rejected.
    pub fn encode(&self) -> (r: Result<BytesMut, EncodeError>)
        ensures
            match r {
                Ok(buf) => Value::Error(self@).representable() && crate::buffer::contents(buf)
                    == crate::wire::encode_value(Value::Error(self@)),
                Err(e) => !Value::Error(self@).representable() && e == EncodeError::LengthOverflow,
            },
    {
        if self.err_msg.len() > LENGTH_MAX {
            return Err(EncodeError::LengthOverflow);
        }
        let mut to_return = BytesMut::with_capacity(self.err_msg.len() + 5);
        write_error(self, &mut to_return);
        Ok(to_return)
    }
}

impl BoopArray {
    pub fn new_wrapped(data: Vec<DataType>) -> (r: DataType)
        ensures
            r@ == Value::Array(views(data@)),
    {
        DataType::Array(Self(data))
    }
}

/// Clones each of `items`.
fn clone_items(items: &Vec<DataType>) -> (r: Vec<DataType>)
    ensures
        views(r@) == views(items@),
    decreases items,
{
    let mut out: Vec<DataType> = Vec::new();
    let mut i: usize = 0;
    while i < items.len()
        invariant
            i <= items.len(),
            out.len() == i,
            forall|j: int| 0 <= j < i ==> out@[j]@ == items@[j]@,
        decreases items.len() - i,
    {
        assert(decreases_to!(items => items[i as int]));
        let item = items[i].clone();
        out.push(item);
        i += 1;
    }
    assert(views(out@) =~= views(items@));
    out
}

/// Compares `a` and `b` element by element.
fn same_items(a: &Vec<DataType>, b: &Vec<DataType>) -> (same: bool)
    ensures
        same == (views(a@) == views(b@)),
    decreases a,
{
    if a.len() != b.len() {
        assert(views(a@).len() != views(b@).len());
        return false;
    }
    let mut i: usize = 0;
    while i < a.len()
        invariant
            i <= a.len(),
            a.len() == b.len(),
            forall|j: int| 0 <= j < i ==> a@[j]@ == b@[j]@,
        decreases a.len() - i,
    {
        assert(decreases_to!(a => a[i as int]));
        if !a[i].eq(&b[i]) {
            assert(views(a@)[i as int] != views(b@)[i as int]);
            return false;
        }
        i += 1;
    }
    assert(views(a@) =~= views(b@));
    true
}

impl Clone for BoopString {
    fn clone(&self) -> (r: Self)
        ensures
            r@ == self@,
    {
        BoopString(self.0.clone())
    }
}

impl Clone for BoopError {
    fn clone(&self) -> (r: Self)
        ensures
            r@ == self@,
    {
        BoopError {
            is_server_err: self.is_server_err,
            err_code: self.err_code,
            err_msg: self.err_msg.clone(),
        }
    }
}

impl Clone for BoopArray {
    fn clone(&self) -> (r: Self)
        ensures
            r@ == self@,
    {
        BoopArray(clone_items(&self.0))
    }
}

impl Clone for DataType {
    /// A copy that stands for the same value. Byte payloads are shared
    /// with `self`, so only the tree itself is duplicated.
    fn clone(&self) -> (r: Self)
        ensures
            r@ == self@,
        decreases self,
    {
        match self {
            DataType::Num(n) => DataType::Num(*n),
            DataType::Bool(b) => DataType::Bool(*b),
            DataType::String(s) => DataType::String(BoopString(s.0.clone())),
            DataType::Error(e) => DataType::Error(
                BoopError {
                    is_server_err: e.is_server_err,
                    err_code: e.err_code,
                    err_msg: e.err_msg.clone(),
                },
            ),
            DataType::Array(a) => DataType::Array(BoopArray(clone_items(&a.0))),
        }
    }
}

impl PartialEq for BoopString {
    fn eq(&self, other: &BoopString) -> (r: bool) {
        same_payload(&self.0, &other.0)
    }
}

impl PartialEqSpecImpl for BoopString {
    open spec fn obeys_eq_spec() -> bool {
        true
    }

    open spec fn eq_spec(&self, other: &BoopString) -> bool {
        self@ == other@
    }
}

impl Eq for BoopString {

}

impl PartialEq for BoopError {
    fn eq(&self, other: &BoopError) -> (r: bool) {
        self.is_server_err == other.is_server_err && self.err_code == other.err_code
            && same_payload(&self.err_msg, &other.err_msg)
    }
}

impl PartialEqSpecImpl for BoopError {
    open spec fn obeys_eq_spec() -> bool {
        true
    }

    open spec fn eq_spec(&self, other: &BoopError) -> bool {
        self@ == other@
    }
}

impl Eq for BoopError {

}

impl PartialEq for BoopArray {
    fn eq(&self, other: &BoopArray) -> (r: bool) {
        same_items(&self.0, &other.0)
    }
}

impl PartialEqSpecImpl for BoopArray {
    open spec fn obeys_eq_spec() -> bool {
        true
    }

    open spec fn eq_spec(&self, other: &BoopArray) -> bool {
        self@ == other@
    }
}

impl Eq for BoopArray {

}

impl PartialEq for DataType {
    /// Two values are equal exactly when they stand for the same value:
    /// the same variant, and payloads equal as the variant compares them.
    fn eq(&self, other: &DataType) -> (r: bool)
        decreases self,
    {
        match (self, other) {
            (DataType::Num(a), DataType::Num(b)) => *a == *b,
            (DataType::Bool(a), DataType::Bool(b)) => a.0 == b.0,
            (DataType::String(a), DataType::String(b)) => same_payload(&a.0, &b.0),
            (DataType::Error(a), DataType::Error(b)) => {
                a.is_server_err == b.is_server_err && a.err_code == b.err_code && same_payload(
                    &a.err_msg,
                    &b.err_msg,
                )
            },
            (DataType::Array(a), DataType::Array(b)) => same_items(&a.0, &b.0),
            _ => false,
        }
    }
}

impl PartialEqSpecImpl for DataType {
    open spec fn obeys_eq_spec() -> bool {
        true
    }

    open spec fn eq_spec(&self, other: &DataType) -> bool {
        self@ == other@
    }
}

impl Eq for DataType {

}

} // verus!
