use blewis::command_interpreter::{
    decode_command, next_step, parse_get, parse_get_del, parse_get_set, parse_set, reply_for,
    CmdType, Command, Step,
};
use blewis::data_type::{BoopBool, BoopError, BoopString, DataType, Int};
use blewis::errors::{DecodeError, Region};
use blewis::store::Store;
use bytes::{BufMut, Bytes, BytesMut};

#[test]
fn parse_get_valid() {
    let mut buf = bytes::BytesMut::new();
    buf.put_u8(0x00);
    buf.put_u8(0xFF);

    let result = parse_get(&mut buf);
    assert_eq!(
        result.unwrap(),
        Command {
            cmd_type: CmdType::Get,
            key: Int::new_u8(0xFF),
            val: None,
        }
    );
}

#[test]
fn parse_get_set_valid() {
    let mut buf = bytes::BytesMut::new();
    buf.put_u8(0x00);
    buf.put_u8(0xFF);

    buf.put_u8(0x00);
    buf.put_u8(0xFF);

    let result = parse_get_set(&mut buf);
    assert_eq!(
        result.unwrap(),
        Command {
            cmd_type: CmdType::GetSet,
            key: Int::new_u8(0xFF),
            val: Some(Int::new_u8(0xff)),
        }
    );
}

#[test]
fn parse_set_valid() {
    let mut buf = bytes::BytesMut::new();
    buf.put_u8(0x00);
    buf.put_u8(0xFF);

    buf.put_u8(0x00);
    buf.put_u8(0xFF);

    let result = parse_set(&mut buf);
    assert_eq!(
        result.unwrap(),
        Command {
            cmd_type: CmdType::Put,
            key: Int::new_u8(0xFF),
            val: Some(Int::new_u8(0xff)),
        }
    );
}

#[test]
fn parse_get_del_valid() {
    let mut buf = BytesMut::new();
    buf.put_slice(&[0x08, 0x12, 0x34, 0x04]);

    let result = parse_get_del(&mut buf);
    assert_eq!(
        result.unwrap(),
        Command {
            cmd_type: CmdType::GetDel,
            key: Int::new_u16(0x1234),
            val: None,
        }
    );
    assert_eq!(&buf[..], &[0x04][..]);
}

#[test]
fn decode_command_reads_each_opcode() {
    let mut buf = BytesMut::new();
    buf.put_slice(&[0x00, 0x00, 0x07]);
    buf.put_slice(&[0x01, 0x00, 0x07, 0x84]);
    buf.put_slice(&[0x02, 0x00, 0x07]);
    buf.put_slice(&[0x10, 0x00, 0x07, 0x04]);

    assert_eq!(
        decode_command(&mut buf).unwrap(),
        Command { cmd_type: CmdType::Get, key: Int::new_u8(7), val: None }
    );
    assert_eq!(
        decode_command(&mut buf).unwrap(),
        Command {
            cmd_type: CmdType::GetSet,
            key: Int::new_u8(7),
            val: Some(BoopBool::new_wrapped(true)),
        }
    );
    assert_eq!(
        decode_command(&mut buf).unwrap(),
        Command { cmd_type: CmdType::GetDel, key: Int::new_u8(7), val: None }
    );
    assert_eq!(
        decode_command(&mut buf).unwrap(),
        Command {
            cmd_type: CmdType::Put,
            key: Int::new_u8(7),
            val: Some(BoopBool::new_wrapped(false)),
        }
    );
    assert!(buf.is_empty());
}

#[test]
fn decode_command_on_empty_buffer() {
    let mut buf = BytesMut::new();
    let err = decode_command(&mut buf).unwrap_err();
    assert_eq!(err, DecodeError::BufTooShort(Region::Command));
    assert_eq!(
        err.to_string(),
        "Unable to decode command from buffer as buffer's length is too small"
    );
}

#[test]
fn unknown_opcode() {
    let mut buf = BytesMut::new();
    buf.put_slice(&[0xFF, 0x00]);
    let err = decode_command(&mut buf).unwrap_err();
    assert_eq!(err, DecodeError::UnknownTag(0xFF));
    assert_eq!(
        err.to_string(),
        "Unable to decode buffer due to unknown meta byte: 255"
    );
    assert_eq!(&buf[..], &[0xFF, 0x00][..]);
}

#[test]
fn missing_operand_keeps_the_opcode() {
    let whole: [u8; 7] = [0x01, 0x02, 0x00, 0x01, b'k', 0x00, 0x09];
    for cut in 1..whole.len() {
        let mut buf = BytesMut::new();
        buf.put_slice(&whole[..cut]);
        let err = decode_command(&mut buf).unwrap_err();
        assert!(matches!(err, DecodeError::BufTooShort(_)));
        assert_eq!(&buf[..], &whole[..cut]);

        buf.put_slice(&whole[cut..]);
        assert_eq!(
            decode_command(&mut buf).unwrap(),
            Command {
                cmd_type: CmdType::GetSet,
                key: BoopString::new_wrapped(Bytes::from_static(b"k")),
                val: Some(Int::new_u8(9)),
            }
        );
        assert!(buf.is_empty());
    }
}

#[test]
fn missing_operand_names_the_region() {
    let mut buf = BytesMut::new();
    buf.put_slice(&[0x10, 0x00, 0x07]);
    assert_eq!(
        decode_command(&mut buf).unwrap_err(),
        DecodeError::BufTooShort(Region::Tag)
    );
    let mut buf = BytesMut::new();
    buf.put_slice(&[0x00, 0x07, 0x08, 0x01]);
    assert_eq!(
        parse_set(&mut buf).unwrap_err(),
        DecodeError::BufTooShort(Region::U16)
    );
    assert_eq!(&buf[..], &[0x00, 0x07, 0x08, 0x01][..]);
}

#[test]
fn get_set_on_absent_key() {
    let store = Store::new();
    let mut buf = BytesMut::new();
    buf.put_slice(&[0x01, 0x00, 0x07, 0x84]);

    let command = decode_command(&mut buf).unwrap();
    let reply = command.execute(store.clone());
    assert_eq!(
        reply,
        Some(DataType::Error(BoopError {
            is_server_err: true,
            err_code: 0x10,
            err_msg: Bytes::from_static(b"no_exist"),
        }))
    );
    assert_eq!(store.get(&Int::new_u8(7)), Some(BoopBool::new_wrapped(true)));
}

#[test]
fn set_then_get() {
    let store = Store::new();
    let set = Command {
        cmd_type: CmdType::Put,
        key: Int::new_u8(0),
        val: Some(Int::new_u8(1)),
    };
    assert_eq!(set.execute(store.clone()), None);

    let get = Command { cmd_type: CmdType::Get, key: Int::new_u8(0), val: None };
    assert_eq!(get.execute(store.clone()), Some(Int::new_u8(1)));
}

#[test]
fn execute_answers_with_what_was_replaced() {
    let store = Store::new();
    let key = BoopString::new_wrapped(Bytes::from_static(b"k"));
    let put = |val: DataType| Command { cmd_type: CmdType::Put, key: key.clone(), val: Some(val) };

    assert_eq!(put(Int::new_u8(1)).execute(store.clone()), None);
    assert_eq!(put(Int::new_u8(2)).execute(store.clone()), Some(Int::new_u8(1)));

    let get_set = Command {
        cmd_type: CmdType::GetSet,
        key: key.clone(),
        val: Some(Int::new_u8(3)),
    };
    assert_eq!(get_set.execute(store.clone()), Some(Int::new_u8(2)));

    let get_del = Command { cmd_type: CmdType::GetDel, key: key.clone(), val: None };
    assert_eq!(get_del.execute(store.clone()), Some(Int::new_u8(3)));
    let get_del = Command { cmd_type: CmdType::GetDel, key: key.clone(), val: None };
    assert_eq!(get_del.execute(store.clone()), None);

    let get = Command { cmd_type: CmdType::Get, key: key.clone(), val: None };
    assert_eq!(get.execute(store.clone()), None);
}

#[test]
fn execute_without_a_value_does_nothing() {
    let store = Store::new();
    let key = Int::new_u8(5);
    let set = Command { cmd_type: CmdType::Put, key: key.clone(), val: None };
    assert_eq!(set.execute(store.clone()), None);
    let get_set = Command { cmd_type: CmdType::GetSet, key: key.clone(), val: None };
    assert_eq!(get_set.execute(store.clone()), None);
    assert_eq!(store.get(&key), None);
}

#[test]
fn next_step_after_each_outcome() {
    let command = Command { cmd_type: CmdType::Get, key: Int::new_u8(1), val: None };
    match next_step(Ok(command)) {
        Step::Run(c) => {
            assert_eq!(c, Command { cmd_type: CmdType::Get, key: Int::new_u8(1), val: None })
        }
        other => panic!("{:?}", other),
    }
    for region in [Region::Command, Region::Tag, Region::StringBody, Region::ArrayElement(3)] {
        assert!(matches!(next_step(Err(DecodeError::BufTooShort(region))), Step::ReadMore));
    }
    assert!(matches!(
        next_step(Err(DecodeError::UnknownTag(9))),
        Step::Close(DecodeError::UnknownTag(9))
    ));
    assert!(matches!(
        next_step(Err(DecodeError::DepthExceeded)),
        Step::Close(DecodeError::DepthExceeded)
    ));
}

#[test]
fn reply_for_each_command_type() {
    let found = || Some(Int::new_u16(7));
    let no_exist = BoopError::new_wrapped(true, 0x10, Bytes::from_static(b"no_exist"));

    assert_eq!(reply_for(CmdType::Get, found()), found());
    assert_eq!(reply_for(CmdType::Get, None), None);
    assert_eq!(reply_for(CmdType::GetDel, found()), found());
    assert_eq!(reply_for(CmdType::GetDel, None), None);
    assert_eq!(reply_for(CmdType::Put, found()), found());
    assert_eq!(reply_for(CmdType::Put, None), None);
    assert_eq!(reply_for(CmdType::GetSet, found()), found());
    assert_eq!(reply_for(CmdType::GetSet, None), Some(no_exist.clone()));
    assert_eq!(reply_for(CmdType::GetSet, Some(no_exist.clone())), Some(no_exist));
}
