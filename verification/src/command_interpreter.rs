//! Commands: an opcode byte, then the values it works on.
//!
//! A command is read from the head of a buffer as a value is: in place,
//! and the buffer is cut only once the whole command is there.

use crate::buffer::{consume, contents, pending};
use crate::data_type::{DataType, Value};
use crate::decoder::{scan_at, take_value};
use crate::errors::{DecodeError, Region};
use crate::store::{no_exist, prior_or_no_exist, Store};
use crate::wire::{encode_value, parse_value, MAX_DEPTH};
use bytes::BytesMut;
use vstd::prelude::*;
use vstd::std_specs::cmp::PartialEqSpecImpl;

verus! {

/// The opcode of `Get`: one operand, the key.
pub const OP_GET: u8 = 0x00;

/// The opcode of `GetSet`: two operands, the key and the new value.
pub const OP_GET_SET: u8 = 0x01;

/// The opcode of `GetDel`: one operand, the key.
pub const OP_GET_DEL: u8 = 0x02;

/// The opcode of `Set`: two operands, the key and the value.
pub const OP_SET: u8 = 0x10;

/// CmdType is the type of command that is to be parsed/executed.
#[derive(Debug, Clone, Copy, PartialEq, Eq, Structural)]
pub enum CmdType {
    Get,
    GetSet,
    GetDel,
    /// The `Set` command of the protocol.
    Put,
}

/// Command is the parsed structure of a Command that manipulates the system in some way.
#[derive(Debug)]
pub struct Command {
    pub cmd_type: CmdType,
    pub key: DataType,
    pub val: Option<DataType>,
}

/// What a `Command` stands for.
pub struct CommandValue {
    pub cmd_type: CmdType,
    pub key: Value,
    pub val: Option<Value>,
}

impl CmdType {
    /// Whether a command of this type carries a value after its key.
    pub open spec fn takes_value(self) -> bool {
        self is GetSet || self is Put
    }

    /// The command type that an opcode byte selects, if it selects one.
    pub open spec fn of_opcode(byte: u8) -> Option<CmdType> {
        if byte == OP_GET {
            Some(CmdType::Get)
        } else if byte == OP_GET_SET {
            Some(CmdType::GetSet)
        } else if byte == OP_GET_DEL {
            Some(CmdType::GetDel)
        } else if byte == OP_SET {
            Some(CmdType::Put)
        } else {
            None
        }
    }
}

impl CmdType {
    /// The opcode byte that a command of this type starts with.
    pub open spec fn opcode(self) -> u8 {
        match self {
            CmdType::Get => OP_GET,
            CmdType::GetSet => OP_GET_SET,
            CmdType::GetDel => OP_GET_DEL,
            CmdType::Put => OP_SET,
        }
    }
}

impl CommandValue {
    /// The command carries a value exactly when its type takes one.
    pub open spec fn well_formed(self) -> bool {
        self.val is Some <==> self.cmd_type.takes_value()
    }

    /// The key, and the value if there is one, can be encoded, and their
    /// arrays are nested no deeper than the decoder follows.
    pub open spec fn decodable(self) -> bool {
        &&& self.key.representable()
        &&& self.key.nests_within(MAX_DEPTH as nat)
        &&& self.val matches Some(v) ==> v.representable() && v.nests_within(MAX_DEPTH as nat)
    }
}

/// The bytes a command is written as: its opcode, its key, and its value
/// if it carries one.
pub open spec fn encode_command(c: CommandValue) -> Seq<u8> {
    seq![c.cmd_type.opcode()] + encode_value(c.key) + match c.val {
        Some(v) => encode_value(v),
        None => Seq::empty(),
    }
}

impl View for Command {
    type V = CommandValue;

    open spec fn view(&self) -> CommandValue {
        CommandValue {
            cmd_type: self.cmd_type,
            key: self.key@,
            val: match self.val {
                Some(v) => Some(v@),
                None => None,
            },
        }
    }
}

impl PartialEq for Command {
    fn eq(&self, other: &Command) -> (r: bool) {
        let same_val = match (&self.val, &other.val) {
            (Some(a), Some(b)) => a.eq(b),
            (None, None) => true,
            _ => false,
        };
        self.cmd_type == other.cmd_type && self.key.eq(&other.key) && same_val
    }
}

impl PartialEqSpecImpl for Command {
    open spec fn obeys_eq_spec() -> bool {
        true
    }

    open spec fn eq_spec(&self, other: &Command) -> bool {
        self@ == other@
    }
}

impl Eq for Command {

}

/// What the bytes at the head of `s` are read as when they hold the
/// operands of a command of the given type: the key, then the value if the
/// type takes one.
pub open spec fn parse_operands(s: Seq<u8>, cmd_type: CmdType) -> Result<
    (CommandValue, nat),
    DecodeError,
> {
    match parse_value(s, MAX_DEPTH as nat) {
        Err(e) => Err(e),
        Ok((key, used)) => if cmd_type.takes_value() {
            match parse_value(s.skip(used as int), MAX_DEPTH as nat) {
                Err(e) => Err(e),
                Ok((val, len)) => Ok((CommandValue { cmd_type, key, val: Some(val) }, used + len)),
            }
        } else {
            Ok((CommandValue { cmd_type, key, val: None }, used))
        },
    }
}

/// What the bytes at the head of `s` are read as when they hold a command:
/// the opcode, then its operands.
pub open spec fn parse_command(s: Seq<u8>) -> Result<(CommandValue, nat), DecodeError> {
    if s.len() == 0 {
        Err(DecodeError::BufTooShort(Region::Command))
    } else {
        match CmdType::of_opcode(s[0]) {
            None => Err(DecodeError::UnknownTag(s[0])),
            Some(cmd_type) => match parse_operands(s.skip(1), cmd_type) {
                Err(e) => Err(e),
                Ok((command, used)) => Ok((command, 1 + used)),
            },
        }
    }
}

/// Scans the operands of a command of the given type, starting at the
/// position `at` of `s`, and says where they end.
fn scan_operands(s: &[u8], at: usize, cmd_type: CmdType) -> (r: Result<usize, DecodeError>)
    requires
        at <= s.len(),
    ensures
        match parse_operands(s@.skip(at as int), cmd_type) {
            Ok((_, n)) => r matches Ok(end) && end == at + n && end <= s.len(),
            Err(e) => r matches Err(x) && x == e,
        },
{
    let after_key = match scan_at(s, at, MAX_DEPTH) {
        Err(e) => {
            return Err(e);
        },
        Ok(end) => end,
    };
    match cmd_type {
        CmdType::GetSet | CmdType::Put => {
            assert(s@.skip(at as int).skip(after_key - at) =~= s@.skip(after_key as int));
            scan_at(s, after_key, MAX_DEPTH)
        },
        _ => Ok(after_key),
    }
}

/// Takes the operands of a command of the given type off the head of
/// `buf`. The caller has made sure that they are all there.
fn build_command(buf: &mut BytesMut, cmd_type: CmdType) -> (command: Command)
    requires
        parse_operands(contents(*old(buf)), cmd_type) is Ok,
    ensures
        command@ == parse_operands(contents(*old(buf)), cmd_type)->Ok_0.0,
        contents(*final(buf)) == contents(*old(buf)).skip(
            parse_operands(contents(*old(buf)), cmd_type)->Ok_0.1 as int,
        ),
{
    let ghost whole = contents(*buf);
    let ghost used = parse_value(whole, MAX_DEPTH as nat)->Ok_0.1;
    let key = take_value(buf, MAX_DEPTH);
    match cmd_type {
        CmdType::GetSet | CmdType::Put => {
            let ghost len = parse_value(whole.skip(used as int), MAX_DEPTH as nat)->Ok_0.1;
            let val = take_value(buf, MAX_DEPTH);
            assert(whole.skip(used as int).skip(len as int) =~= whole.skip((used + len) as int));
            Command { cmd_type, key, val: Some(val) }
        },
        _ => Command { cmd_type, key, val: None },
    }
}

/// Reads the operands of a command of the given type from the head of
/// `buf`, and takes them off the buffer if they are all there.
fn take_operands(buf: &mut BytesMut, cmd_type: CmdType) -> (r: Result<Command, DecodeError>)
    ensures
        match parse_operands(contents(*old(buf)), cmd_type) {
            Ok((c, n)) => r matches Ok(command) && command@ == c && contents(*final(buf))
                == contents(*old(buf)).skip(n as int),
            Err(e) => r matches Err(x) && x == e && contents(*final(buf)) == contents(*old(buf)),
        },
{
    assert(contents(*buf).skip(0) =~= contents(*buf));
    match scan_operands(pending(buf), 0, cmd_type) {
        Err(e) => Err(e),
        Ok(_) => Ok(build_command(buf, cmd_type)),
    }
}

/// Reads the operand of a `Get` from the head of `buf`: the key. On any
/// error the buffer is left as it was.
pub fn parse_get(buf: &mut BytesMut) -> (r: Result<Command, DecodeError>)
    ensures
        match parse_operands(contents(*old(buf)), CmdType::Get) {
            Ok((c, n)) => r matches Ok(command) && command@ == c && contents(*final(buf))
                == contents(*old(buf)).skip(n as int),
            Err(e) => r matches Err(x) && x == e && contents(*final(buf)) == contents(*old(buf)),
        },
{
    take_operands(buf, CmdType::Get)
}

/// Reads the operands of a `GetSet` from the head of `buf`: the key, then
/// the new value. On any error the buffer is left as it was.
pub fn parse_get_set(buf: &mut BytesMut) -> (r: Result<Command, DecodeError>)
    ensures
        match parse_operands(contents(*old(buf)), CmdType::GetSet) {
            Ok((c, n)) => r matches Ok(command) && command@ == c && contents(*final(buf))
                == contents(*old(buf)).skip(n as int),
            Err(e) => r matches Err(x) && x == e && contents(*final(buf)) == contents(*old(buf)),
        },
{
    take_operands(buf, CmdType::GetSet)
}

/// Reads the operand of a `GetDel` from the head of `buf`: the key. On any
/// error the buffer is left as it was.
pub fn parse_get_del(buf: &mut BytesMut) -> (r: Result<Command, DecodeError>)
    ensures
        match parse_operands(contents(*old(buf)), CmdType::GetDel) {
            Ok((c, n)) => r matches Ok(command) && command@ == c && contents(*final(buf))
                == contents(*old(buf)).skip(n as int),
            Err(e) => r matches Err(x) && x == e && contents(*final(buf)) == contents(*old(buf)),
        },
{
    take_operands(buf, CmdType::GetDel)
}

/// Reads the operands of a `Set` from the head of `buf`: the key, then the
/// value. On any error the buffer is left as it was.
pub fn parse_set(buf: &mut BytesMut) -> (r: Result<Command, DecodeError>)
    ensures
        match parse_operands(contents(*old(buf)), CmdType::Put) {
            Ok((c, n)) => r matches Ok(command) && command@ == c && contents(*final(buf))
                == contents(*old(buf)).skip(n as int),
            Err(e) => r matches Err(x) && x == e && contents(*final(buf)) == contents(*old(buf)),
        },
{
    take_operands(buf, CmdType::Put)
}

/// Reads one command from the head of `buf`.
///
/// On success the command's bytes are taken off the buffer. On any error
/// the buffer is left as it was, opcode included; after `BufTooShort` the
/// caller appends what arrives next and calls again.
pub fn decode_command(buf: &mut BytesMut) -> (r: Result<Command, DecodeError>)
    ensures
        match parse_command(contents(*old(buf))) {
            Ok((c, n)) => r matches Ok(command) && command@ == c && contents(*final(buf))
                == contents(*old(buf)).skip(n as int),
            Err(e) => r matches Err(x) && x == e && contents(*final(buf)) == contents(*old(buf)),
        },
{
    let scanned = {
        let s = pending(buf);
        if s.len() == 0 {
            return Err(DecodeError::BufTooShort(Region::Command));
        }
        let opcode = s[0];
        let cmd_type = if opcode == OP_GET {
            CmdType::Get
        } else if opcode == OP_GET_SET {
            CmdType::GetSet
        } else if opcode == OP_GET_DEL {
            CmdType::GetDel
        } else if opcode == OP_SET {
            CmdType::Put
        } else {
            return Err(DecodeError::UnknownTag(opcode));
        };
        match scan_operands(s, 1, cmd_type) {
            Err(e) => Err(e),
            Ok(_) => Ok(cmd_type),
        }
    };
    match scanned {
        Err(e) => Err(e),
        Ok(cmd_type) => {
            consume(buf, 1);
            let ghost operands = contents(*buf);
            let command = build_command(buf, cmd_type);
            assert(contents(*old(buf)).skip(1).skip(
                parse_operands(operands, cmd_type)->Ok_0.1 as int,
            ) =~= contents(*old(buf)).skip(1 + parse_operands(operands, cmd_type)->Ok_0.1 as int));
            Ok(command)
        },
    }
}

/// What a connection does next, once it has tried to read a command from
/// its buffer.
#[derive(Debug)]
pub enum Step {
    /// A whole command was there: carry it out and send the reply.
    Run(Command),
    /// The command has arrived only in part: wait for more bytes and try
    /// again on the same buffer.
    ReadMore,
    /// What arrived is no command: give up the connection.
    Close(DecodeError),
}

/// Decides what a connection does next from what `decode_command` gave. A
/// shortfall is the one error that is waited out; every other error ends
/// the connection.
pub fn next_step(outcome: Result<Command, DecodeError>) -> (step: Step)
    ensures
        match outcome {
            Ok(command) => step == Step::Run(command),
            Err(e) => if e.is_short() {
                step is ReadMore
            } else {
                step == Step::Close(e)
            },
        },
{
    match outcome {
        Ok(command) => Step::Run(command),
        Err(DecodeError::BufTooShort(_)) => Step::ReadMore,
        Err(e) => Step::Close(e),
    }
}

/// The reply to a command of the given type, from what the store handed
/// back for its key: the value it found, replaced or removed, if there was
/// one.
///
/// `Get`, `GetDel` and `Set` reply with that value, or with nothing where
/// there was none. `GetSet` always replies: with that value, or with the
/// `no_exist` error where there was none.
pub fn reply_for(cmd_type: CmdType, found: Option<DataType>) -> (r: Option<DataType>)
    ensures
        match cmd_type {
            CmdType::GetSet => r matches Some(v) && (match found {
                Some(p) => v == p,
                None => v@ == no_exist(),
            }),
            _ => r == found,
        },
{
    match cmd_type {
        CmdType::GetSet => Some(prior_or_no_exist(found)),
        _ => found,
    }
}

impl Command {
    /// Performs the operations specified by the command.
    ///
    /// `Get` looks the key up, `GetDel` takes its entry out, and `GetSet`
    /// and `Set` put the value under it. The reply is `reply_for` of what
    /// the store handed back. A `GetSet` or `Set` without a value does
    /// nothing and answers with nothing.
    pub fn execute(self, store: Store) -> (r: Option<DataType>)
        ensures
            self.cmd_type is GetSet ==> (r is Some <==> self.val is Some),
            self.cmd_type is Put && self.val is None ==> r is None,
    {
        match self.cmd_type {
            CmdType::Get => reply_for(CmdType::Get, store.get(&self.key)),
            CmdType::GetSet => {
                match self.val {
                    None => None,
                    Some(val) => reply_for(CmdType::GetSet, store.set(&self.key, &val)),
                }
            },
            CmdType::GetDel => reply_for(CmdType::GetDel, store.get_del(&self.key)),
            CmdType::Put => {
                match self.val {
                    None => None,
                    Some(val) => reply_for(CmdType::Put, store.set(&self.key, &val)),
                }
            },
        }
    }
}

} // verus!
