//! The errors of the codec, and the text each one is reported with.

use vstd::prelude::*;
use vstd::string::StringExecFns;

verus! {

/// The part of an encoded value that the buffer ended in.
#[derive(Debug, Clone, Copy, PartialEq, Eq, Structural)]
pub enum Region {
    /// The tag byte that starts every value.
    Tag,
    /// The body of an 8-bit integer.
    U8,
    /// The body of a 16-bit integer.
    U16,
    /// The body of a 32-bit integer.
    U32,
    /// The body of a 64-bit integer.
    U64,
    /// The body of a 32-bit float.
    F32,
    /// The body of a 64-bit float.
    F64,
    /// The length field of a string.
    StringHeader,
    /// The bytes of a string.
    StringBody,
    /// The flag, code and length fields of an error.
    ErrorHeader,
    /// The message bytes of an error.
    ErrorValue,
    /// The element count of an array.
    ArrayHeader,
    /// The array element with this index, counted from zero.
    ArrayElement(u16),
    /// The opcode byte that starts every command.
    Command,
}

/// Why a value or a command could not be read from a buffer.
#[derive(Debug, Clone, Copy, PartialEq, Eq, Structural)]
pub enum DecodeError {
    /// The buffer ends inside the named region. More bytes may still
    /// arrive, so the caller keeps the buffer and tries again later.
    BufTooShort(Region),
    /// The byte is no tag of a value, or no opcode of a command.
    UnknownTag(u8),
    /// Arrays are nested more deeply than the decoder follows.
    DepthExceeded,
}

/// Why a value could not be written to a buffer.
#[derive(Debug, Clone, Copy, PartialEq, Eq, Structural)]
pub enum EncodeError {
    /// A string, an error message or an array is longer than a 16-bit
    /// length field can say, or the encoding would not fit in memory.
    LengthOverflow,
}

/// The character of a decimal digit.
pub open spec fn digit(d: nat) -> char {
    (d + 48) as u8 as char
}

/// `n` in decimal, without leading zeros.
pub open spec fn decimal(n: nat) -> Seq<char>
    decreases n,
{
    if n < 10 {
        seq![digit(n)]
    } else {
        decimal(n / 10).push(digit(n % 10))
    }
}

/// `format!("{}", n)`: the `Display` text of an unsigned integer, which is
/// its decimal expansion.
#[verifier::external_body]
fn decimal_string(n: u16) -> (s: String)
    ensures
        s@ == decimal(n as nat),
{
    format!("{}", n)
}

impl Region {
    /// The words a region is reported with.
    pub open spec fn name(self) -> Seq<char> {
        match self {
            Region::Tag => "meta data byte"@,
            Region::U8 => "u8"@,
            Region::U16 => "u16"@,
            Region::U32 => "u32"@,
            Region::U64 => "u64"@,
            Region::F32 => "f32"@,
            Region::F64 => "f64"@,
            Region::StringHeader => "string header"@,
            Region::StringBody => "string body"@,
            Region::ErrorHeader => "error header"@,
            Region::ErrorValue => "error value"@,
            Region::ArrayHeader => "array header"@,
            Region::ArrayElement(_) => "array element"@,
            Region::Command => "command"@,
        }
    }

    fn label(&self) -> (s: &'static str)
        ensures
            s@ == self.name(),
    {
        match self {
            Region::Tag => "meta data byte",
            Region::U8 => "u8",
            Region::U16 => "u16",
            Region::U32 => "u32",
            Region::U64 => "u64",
            Region::F32 => "f32",
            Region::F64 => "f64",
            Region::StringHeader => "string header",
            Region::StringBody => "string body",
            Region::ErrorHeader => "error header",
            Region::ErrorValue => "error value",
            Region::ArrayHeader => "array header",
            Region::ArrayElement(_) => "array element",
            Region::Command => "command",
        }
    }
}

impl DecodeError {
    /// Whether the error only says that more input is needed.
    pub open spec fn is_short(self) -> bool {
        self is BufTooShort
    }

    /// The text an error is reported with.
    pub open spec fn message(self) -> Seq<char> {
        match self {
            DecodeError::BufTooShort(Region::ArrayElement(i)) => "array decode failed on element: "@
                + decimal(i as nat),
            DecodeError::BufTooShort(region) => "Unable to decode "@ + region.name()
                + " from buffer as buffer's length is too small"@,
            DecodeError::UnknownTag(byte) => "Unable to decode buffer due to unknown meta byte: "@
                + decimal(byte as nat),
            DecodeError::DepthExceeded => "Unable to decode buffer as arrays are nested too deeply"@,
        }
    }

    /// The error as text.
    pub fn to_string(&self) -> (s: String)
        ensures
            s@ == self.message(),
    {
        match self {
            DecodeError::BufTooShort(Region::ArrayElement(i)) => {
                let index = decimal_string(*i);
                String::from_str("array decode failed on element: ").concat(index.as_str())
            },
            DecodeError::BufTooShort(region) => {
                String::from_str("Unable to decode ").concat(region.label()).concat(
                    " from buffer as buffer's length is too small",
                )
            },
            DecodeError::UnknownTag(byte) => {
                let tag = decimal_string(*byte as u16);
                String::from_str("Unable to decode buffer due to unknown meta byte: ").concat(
                    tag.as_str(),
                )
            },
            DecodeError::DepthExceeded => String::from_str(
                "Unable to decode buffer as arrays are nested too deeply",
            ),
        }
    }
}

impl EncodeError {
    /// The text an error is reported with.
    pub open spec fn message(self) -> Seq<char> {
        "Unable to encode value as a length does not fit the buffer or its 16-bit field"@
    }

    /// The error as text.
    pub fn to_string(&self) -> (s: String)
        ensures
            s@ == self.message(),
    {
        String::from_str("Unable to encode value as a length does not fit the buffer or its 16-bit field")
    }
}

} // verus!
