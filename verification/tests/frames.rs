use sc64_link::error::{Error, IoFailure, IoKind};
use sc64_link::frame::{
    decode_serial_command, decode_stream_command, get_be32, put_be32, put_bytes, Command,
    DataType,
};
use sc64_link::serial::{new_serial, Serial, SerialSetup};
use sc64_link::stream::{new_tcp_backend, TcpBackend, TcpSetup};

fn serial() -> Serial {
    let opening = match new_serial("/dev/ttyUSB0") {
        SerialSetup::Open(opening) => opening,
        other => panic!("unexpected step: {:?}", other),
    };
    let reset = match opening.opened(Ok(())) {
        SerialSetup::Round(_, reset) => reset,
        other => panic!("unexpected step: {:?}", other),
    };
    let reset = match reset.accept(Ok(true)) {
        SerialSetup::Round(_, reset) => reset,
        other => panic!("unexpected step: {:?}", other),
    };
    match reset.accept(Ok(false)) {
        SerialSetup::Done(Ok(serial)) => serial,
        other => panic!("unexpected step: {:?}", other),
    }
}

fn stream() -> TcpBackend {
    let connecting = match new_tcp_backend("127.0.0.1:9064") {
        TcpSetup::Connect(connecting) => connecting,
        other => panic!("unexpected step: {:?}", other),
    };
    let configuring = match connecting.connected(Ok(())) {
        TcpSetup::Configure(configuring) => configuring,
        other => panic!("unexpected step: {:?}", other),
    };
    match configuring.configured(Ok(())) {
        TcpSetup::Done(Ok(stream)) => stream,
        other => panic!("unexpected step: {:?}", other),
    }
}

#[test]
fn big_endian_bytes_of_a_number() {
    let mut out = vec![0xAA];
    put_be32(&mut out, 0x0102_0304);
    assert_eq!(out, vec![0xAA, 0x01, 0x02, 0x03, 0x04]);
    put_be32(&mut out, 0xCAFE_BEEF);
    assert_eq!(&out[5..], &[0xCA, 0xFE, 0xBE, 0xEF]);
}

#[test]
fn big_endian_number_of_bytes() {
    let bytes = [0x00, 0xDE, 0xAD, 0xBE, 0xEF, 0x01];
    assert_eq!(get_be32(&bytes, 1), 0xDEAD_BEEF);
    assert_eq!(get_be32(&bytes, 0), 0x00DE_ADBE);
    assert_eq!(get_be32(&[0xFF, 0xFF, 0xFF, 0xFF], 0), u32::MAX);
    assert_eq!(get_be32(&[0, 0, 0, 0], 0), 0);
}

#[test]
fn bytes_are_appended_in_order() {
    let mut out = vec![1, 2];
    put_bytes(&mut out, &[3, 4, 5]);
    put_bytes(&mut out, &[]);
    assert_eq!(out, vec![1, 2, 3, 4, 5]);
}

#[test]
fn data_type_tags() {
    assert_eq!(u32::from(DataType::Command), 1);
    assert_eq!(u32::from(DataType::Response), 2);
    assert_eq!(u32::from(DataType::Packet), 3);
    assert_eq!(u32::from(DataType::KeepAlive), 0xCAFE_BEEF);
}

#[test]
fn data_type_of_a_tag() {
    assert_eq!(DataType::try_from(1), Ok(DataType::Command));
    assert_eq!(DataType::try_from(2), Ok(DataType::Response));
    assert_eq!(DataType::try_from(3), Ok(DataType::Packet));
    assert_eq!(DataType::try_from(0xCAFE_BEEF), Ok(DataType::KeepAlive));
}

#[test]
fn data_type_of_an_unknown_tag() {
    for tag in [0u32, 4, 0xCAFE_BEEE, u32::MAX] {
        assert_eq!(DataType::try_from(tag), Err(Error::new("Unknown data type")));
    }
}

#[test]
fn serial_command_layout() {
    let command = Command { id: b'V', args: [0x0102_0304, 0xA0B0_C0D0], data: vec![9, 8, 7] };
    assert_eq!(
        serial().send_command(&command),
        vec![
            b'C', b'M', b'D', b'V', 0x01, 0x02, 0x03, 0x04, 0xA0, 0xB0, 0xC0, 0xD0, 9, 8, 7
        ]
    );
}

#[test]
fn serial_command_without_data() {
    let command = Command { id: 0, args: [0, 0], data: vec![] };
    assert_eq!(
        serial().send_command(&command),
        vec![b'C', b'M', b'D', 0, 0, 0, 0, 0, 0, 0, 0, 0]
    );
}

#[test]
fn stream_command_layout() {
    let command = Command { id: 0x05, args: [1, 0], data: vec![0xDE, 0xAD, 0xBE] };
    assert_eq!(
        stream().send_command(&command),
        vec![
            0, 0, 0, 1, 0x05, 0, 0, 0, 1, 0, 0, 0, 0, 0, 0, 0, 3, 0xDE, 0xAD, 0xBE
        ]
    );
}

#[test]
fn stream_command_without_data() {
    let command = Command { id: 0x05, args: [1, 0], data: vec![] };
    assert_eq!(
        stream().send_command(&command),
        vec![0, 0, 0, 1, 0x05, 0, 0, 0, 1, 0, 0, 0, 0, 0, 0, 0, 0]
    );
}

#[test]
fn stream_command_length_field_counts_the_data() {
    let command = Command { id: 1, args: [0, 0], data: vec![0x55; 0x0001_0203] };
    let bytes = stream().send_command(&command);
    assert_eq!(bytes.len(), 17 + 0x0001_0203);
    assert_eq!(&bytes[13..17], &[0x00, 0x01, 0x02, 0x03]);
}

#[test]
fn serial_command_round_trip() {
    let commands = [
        Command { id: 0, args: [0, 0], data: vec![] },
        Command { id: b'R', args: [0xFFFF_FFFF, 0x8000_0000], data: vec![0] },
        Command { id: 0xFF, args: [0x1234_5678, 0x9ABC_DEF0], data: (0..=255).collect() },
        Command { id: b'C', args: [1, 2], data: b"CMD".to_vec() },
    ];
    for command in commands {
        let bytes = serial().send_command(&command);
        assert_eq!(decode_serial_command(&bytes), Some(command));
    }
}

#[test]
fn stream_command_round_trip() {
    let commands = [
        Command { id: 0, args: [0, 0], data: vec![] },
        Command { id: b'R', args: [0xFFFF_FFFF, 0x8000_0000], data: vec![0] },
        Command { id: 0xFF, args: [0x1234_5678, 0x9ABC_DEF0], data: (0..=255).collect() },
        Command { id: 5, args: [1, 0], data: vec![7; 70_000] },
    ];
    for command in commands {
        let bytes = stream().send_command(&command);
        assert_eq!(decode_stream_command(&bytes), Some(command));
    }
}

#[test]
fn serial_command_needs_its_marker() {
    assert_eq!(decode_serial_command(b"CMP\x01\0\0\0\0\0\0\0\0"), None);
    assert_eq!(decode_serial_command(b"cMD\x01\0\0\0\0\0\0\0\0"), None);
    assert_eq!(decode_serial_command(b"CMD\x01\0\0\0\0\0\0\0"), None);
    assert_eq!(decode_serial_command(b""), None);
}

#[test]
fn stream_command_needs_tag_and_length() {
    let good = stream().send_command(&Command { id: 1, args: [2, 3], data: vec![4, 5] });
    assert!(decode_stream_command(&good).is_some());
    let mut wrong_tag = good.clone();
    wrong_tag[3] = 2;
    assert_eq!(decode_stream_command(&wrong_tag), None);
    let mut too_long = good.clone();
    too_long.push(0);
    assert_eq!(decode_stream_command(&too_long), None);
    let too_short = &good[..good.len() - 1];
    assert_eq!(decode_stream_command(too_short), None);
    assert_eq!(decode_stream_command(&good[..16]), None);
}

#[test]
fn error_keeps_its_description() {
    assert_eq!(Error::new("No SC64 devices found").to_string(), "No SC64 devices found");
    assert_eq!(Error::new("").to_string(), "");
}

#[test]
fn error_of_an_io_failure() {
    let failure = IoFailure { kind: IoKind::BrokenPipe, description: "broken pipe".to_string() };
    assert_eq!(Error::io(&failure).to_string(), "IO error: broken pipe");
}

#[test]
fn error_of_a_serial_port_failure() {
    assert_eq!(
        Error::serial_port("Permission denied").to_string(),
        "SerialPort error: Permission denied"
    );
}

#[test]
fn transient_io_kinds() {
    let transient = [IoKind::Interrupted, IoKind::TimedOut, IoKind::WouldBlock];
    for kind in transient {
        assert!(kind.is_transient());
    }
    let fatal = [
        IoKind::NotFound,
        IoKind::PermissionDenied,
        IoKind::ConnectionRefused,
        IoKind::ConnectionReset,
        IoKind::ConnectionAborted,
        IoKind::NotConnected,
        IoKind::AddrInUse,
        IoKind::AddrNotAvailable,
        IoKind::BrokenPipe,
        IoKind::AlreadyExists,
        IoKind::InvalidInput,
        IoKind::InvalidData,
        IoKind::WriteZero,
        IoKind::Unsupported,
        IoKind::UnexpectedEof,
        IoKind::OutOfMemory,
        IoKind::Other,
    ];
    for kind in fatal {
        assert!(!kind.is_transient());
    }
}
