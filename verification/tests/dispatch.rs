use sc64_link::discovery::{list_local_devices, LocalDevice, PortInfo, UsbInfo, SC64_PID, SC64_VID};
use sc64_link::error::{Error, IoFailure, IoKind};
use sc64_link::frame::{Command, Packet, Response};
use sc64_link::link::{new_local, new_remote, CommandStep, Link, PacketStep};
use sc64_link::reader::{ReadEvent, ReadOutcome, READ_BUDGET_NANOS};
use sc64_link::serial::{new_serial, SerialSetup};
use sc64_link::stream::{new_tcp_backend, TcpSetup};

fn local() -> Link {
    let mut setup = new_serial("/dev/ttyUSB0");
    let mut active = true;
    loop {
        setup = match setup {
            SerialSetup::Open(opening) => opening.opened(Ok(())),
            SerialSetup::Round(_, reset) => {
                let step = reset.accept(Ok(active));
                active = false;
                step
            }
            SerialSetup::Done(Ok(serial)) => return new_local(serial),
            SerialSetup::Done(Err(error)) => panic!("{}", error.to_string()),
        };
    }
}

fn remote() -> Link {
    let mut setup = new_tcp_backend("127.0.0.1:9064");
    loop {
        setup = match setup {
            TcpSetup::Connect(connecting) => connecting.connected(Ok(())),
            TcpSetup::Configure(configuring) => configuring.configured(Ok(())),
            TcpSetup::Done(Ok(stream)) => return new_remote(stream),
            TcpSetup::Done(Err(error)) => panic!("{}", error.to_string()),
        };
    }
}

fn not_ready(elapsed_nanos: u128) -> ReadEvent {
    let failure = IoFailure { kind: IoKind::TimedOut, description: "timed out".to_string() };
    ReadEvent { outcome: ReadOutcome::Failed(failure), elapsed_nanos }
}

/// What a transport hands over: the bytes of `wire`, at most `chunk` per
/// read, and nothing once they are used up.
struct Wire {
    wire: Vec<u8>,
    at: usize,
    chunk: usize,
    written: Vec<u8>,
    idle_nanos: u128,
}

impl Wire {
    fn new(wire: &[u8]) -> Wire {
        Wire { wire: wire.to_vec(), at: 0, chunk: usize::MAX, written: vec![], idle_nanos: 0 }
    }

    fn read(&mut self, length: usize) -> ReadEvent {
        let length = length.min(self.chunk).min(self.wire.len() - self.at);
        if length == 0 {
            self.idle_nanos += READ_BUDGET_NANOS / 2 + 1;
            return not_ready(self.idle_nanos);
        }
        let bytes = self.wire[self.at..self.at + length].to_vec();
        self.at += length;
        ReadEvent { outcome: ReadOutcome::Data(bytes), elapsed_nanos: 0 }
    }

    fn command(&mut self, link: &mut Link, step: CommandStep) -> Result<Vec<u8>, Error> {
        let mut step = step;
        loop {
            step = match step {
                CommandStep::Write(bytes, sending) => {
                    self.written.extend_from_slice(&bytes);
                    sending.written(Ok(()))
                }
                CommandStep::Read(awaiting) => {
                    let event = self.read(awaiting.missing());
                    awaiting.accept(link, event)
                }
                CommandStep::Done(result) => return result,
            };
        }
    }

    fn packet(&mut self, link: &mut Link) -> Result<Option<Packet>, Error> {
        let mut step = link.receive_packet();
        loop {
            step = match step {
                PacketStep::Read(polling) => {
                    let event = self.read(polling.missing());
                    polling.accept(link, event)
                }
                PacketStep::Done(result) => return result,
            };
        }
    }
}

fn command(id: u8) -> Command {
    Command { id, args: [1, 0], data: vec![] }
}

#[test]
fn stream_command_gives_the_payload_of_its_response() {
    let mut link = remote();
    let mut wire = Wire::new(&[0, 0, 0, 2, 0x05, 0, 0, 0, 0, 4, 0xDE, 0xAD, 0xBE, 0xEF]);
    let step = link.execute_command(&command(0x05));
    assert_eq!(wire.command(&mut link, step), Ok(vec![0xDE, 0xAD, 0xBE, 0xEF]));
    assert_eq!(wire.written, vec![0, 0, 0, 1, 0x05, 0, 0, 0, 1, 0, 0, 0, 0, 0, 0, 0, 0]);
}

#[test]
fn stream_command_fails_on_a_response_error() {
    let mut link = remote();
    let mut wire = Wire::new(&[0, 0, 0, 2, 0x05, 1, 0, 0, 0, 4, 0xDE, 0xAD, 0xBE, 0xEF]);
    let step = link.execute_command(&command(0x05));
    assert_eq!(wire.command(&mut link, step), Err(Error::new("Command response error")));
}

#[test]
fn stream_command_can_ignore_a_response_error() {
    let mut link = remote();
    let mut wire = Wire::new(&[0, 0, 0, 2, 0x05, 1, 0, 0, 0, 4, 0xDE, 0xAD, 0xBE, 0xEF]);
    let step = link.execute_command_raw(&command(0x05), false, true);
    assert_eq!(wire.command(&mut link, step), Ok(vec![0xDE, 0xAD, 0xBE, 0xEF]));
}

#[test]
fn serial_command_gives_the_payload_of_its_response() {
    let mut link = local();
    let mut wire = Wire::new(b"CMPV\0\0\0\x02ok");
    let step = link.execute_command(&Command { id: b'V', args: [7, 8], data: vec![1, 2] });
    assert_eq!(wire.command(&mut link, step), Ok(b"ok".to_vec()));
    assert_eq!(wire.written, b"CMDV\0\0\0\x07\0\0\0\x08\x01\x02".to_vec());
}

#[test]
fn serial_command_fails_on_a_response_error() {
    let mut link = local();
    let mut wire = Wire::new(b"ERRV\0\0\0\x02no");
    let step = link.execute_command(&command(b'V'));
    assert_eq!(wire.command(&mut link, step), Err(Error::new("Command response error")));
    let mut wire = Wire::new(b"ERRV\0\0\0\x02no");
    let step = link.execute_command_raw(&command(b'V'), false, true);
    assert_eq!(wire.command(&mut link, step), Ok(b"no".to_vec()));
}

#[test]
fn response_with_another_id_is_a_failure() {
    for ignore_error in [false, true] {
        for flag in [0u8, 1] {
            let mut link = remote();
            let mut wire = Wire::new(&[0, 0, 0, 2, 0x06, flag, 0, 0, 0, 1, 0x99]);
            let step = link.execute_command_raw(&command(0x05), false, ignore_error);
            assert_eq!(
                wire.command(&mut link, step),
                Err(Error::new("Command response ID didn't match"))
            );
        }
        let mut link = local();
        let mut wire = Wire::new(b"CMPW\0\0\0\x01\x99");
        let step = link.execute_command_raw(&command(b'V'), false, ignore_error);
        assert_eq!(
            wire.command(&mut link, step),
            Err(Error::new("Command response ID didn't match"))
        );
    }
}

#[test]
fn command_without_response_ends_when_it_is_written() {
    let mut link = remote();
    let step = link.execute_command_raw(&command(0x05), true, false);
    let sending = match step {
        CommandStep::Write(_, sending) => sending,
        other => panic!("unexpected step: {:?}", other),
    };
    match sending.written(Ok(())) {
        CommandStep::Done(result) => assert_eq!(result, Ok(vec![])),
        other => panic!("unexpected step: {:?}", other),
    }
}

#[test]
fn command_that_cannot_be_written_fails() {
    for no_response in [false, true] {
        let link = local();
        let step = link.execute_command_raw(&command(0x05), no_response, false);
        let sending = match step {
            CommandStep::Write(_, sending) => sending,
            other => panic!("unexpected step: {:?}", other),
        };
        let report =
            Err(IoFailure { kind: IoKind::WriteZero, description: "failed to write".to_string() });
        match sending.written(report) {
            CommandStep::Done(result) => {
                assert_eq!(result, Err(Error::new("IO error: failed to write")))
            }
            other => panic!("unexpected step: {:?}", other),
        }
    }
}

#[test]
fn first_read_of_a_command_is_the_header_of_a_frame() {
    let link = remote();
    let sending = match link.execute_command(&command(1)) {
        CommandStep::Write(_, sending) => sending,
        other => panic!("unexpected step: {:?}", other),
    };
    match sending.written(Ok(())) {
        CommandStep::Read(awaiting) => {
            assert_eq!(awaiting.missing(), 4);
            assert!(awaiting.restarts_clock());
        }
        other => panic!("unexpected step: {:?}", other),
    }
}

#[test]
fn failure_while_a_response_is_awaited_is_marked() {
    let mut link = local();
    let mut wire = Wire::new(b"CMPV\0\0");
    let step = link.execute_command(&command(b'V'));
    assert_eq!(
        wire.command(&mut link, step),
        Err(Error::new("Command response error: Serial read timeout"))
    );
    let mut link = remote();
    let mut wire = Wire::new(&[0, 0, 0, 7]);
    let step = link.execute_command(&command(b'V'));
    assert_eq!(
        wire.command(&mut link, step),
        Err(Error::new("Command response error: Unexpected payload data type received"))
    );
}

#[test]
fn missing_response_is_a_failure() {
    assert_eq!(Link::receive_response(Ok(None)), Err(Error::new("No response was received")));
    let response = Response { id: 1, data: vec![2], error: true };
    assert_eq!(Link::receive_response(Ok(Some(response.clone()))), Ok(response));
    assert_eq!(
        Link::receive_response(Err(Error::new("Stream read timeout"))),
        Err(Error::new("Command response error: Stream read timeout"))
    );
}

#[test]
fn command_result_checks_id_before_error() {
    let response = |id: u8, error: bool| Ok(Response { id, data: vec![1, 2], error });
    assert_eq!(Link::command_result(5, false, response(5, false)), Ok(vec![1, 2]));
    assert_eq!(Link::command_result(5, true, response(5, true)), Ok(vec![1, 2]));
    assert_eq!(
        Link::command_result(5, false, response(5, true)),
        Err(Error::new("Command response error"))
    );
    assert_eq!(
        Link::command_result(5, true, response(4, true)),
        Err(Error::new("Command response ID didn't match"))
    );
    assert_eq!(
        Link::command_result(5, false, Err(Error::new("No response was received"))),
        Err(Error::new("No response was received"))
    );
}

#[test]
fn packet_before_a_response_is_kept_for_later() {
    for chunk in [usize::MAX, 1, 3] {
        let mut link = remote();
        let mut wire = Wire::new(&[
            0, 0, 0, 3, 0x42, 0, 0, 0, 2, 7, 8, 0, 0, 0, 2, 0x05, 0, 0, 0, 0, 1, 0x31,
        ]);
        wire.chunk = chunk;
        let step = link.execute_command(&command(0x05));
        assert_eq!(wire.command(&mut link, step), Ok(vec![0x31]));
        assert_eq!(wire.packet(&mut link), Ok(Some(Packet { id: 0x42, data: vec![7, 8] })));
        assert_eq!(wire.packet(&mut link), Ok(None));
    }
}

#[test]
fn packet_is_in_the_queue_before_the_response_is_returned() {
    let mut link = local();
    let mut step = match link.execute_command(&command(b'V')) {
        CommandStep::Write(_, sending) => sending.written(Ok(())),
        other => panic!("unexpected step: {:?}", other),
    };
    for field in [&b"PKTU"[..], b"\0\0\0\x01", b"!"] {
        step = match step {
            CommandStep::Read(awaiting) => {
                let event =
                    ReadEvent { outcome: ReadOutcome::Data(field.to_vec()), elapsed_nanos: 0 };
                awaiting.accept(&mut link, event)
            }
            other => panic!("unexpected step: {:?}", other),
        };
    }
    match link.receive_packet() {
        PacketStep::Done(packet) => {
            assert_eq!(packet, Ok(Some(Packet { id: b'U', data: vec![b'!'] })))
        }
        other => panic!("unexpected step: {:?}", other),
    }
    let mut wire = Wire::new(b"CMPV\0\0\0\0");
    assert_eq!(wire.command(&mut link, step), Ok(vec![]));
}

#[test]
fn packets_are_handed_out_oldest_first() {
    let mut link = local();
    let mut wire = Wire::new(b"PKTa\0\0\0\0PKTb\0\0\0\0PKTc\0\0\0\0CMPV\0\0\0\0PKTd\0\0\0\0");
    let step = link.execute_command(&command(b'V'));
    assert_eq!(wire.command(&mut link, step), Ok(vec![]));
    for id in [b'a', b'b', b'c', b'd'] {
        assert_eq!(wire.packet(&mut link), Ok(Some(Packet { id, data: vec![] })));
    }
    assert_eq!(wire.packet(&mut link), Ok(None));
}

#[test]
fn keep_alives_before_a_response_change_nothing() {
    for count in [0usize, 1, 5, 64] {
        let mut bytes = Vec::new();
        for _ in 0..count {
            bytes.extend_from_slice(&[0xCA, 0xFE, 0xBE, 0xEF]);
        }
        bytes.extend_from_slice(&[0, 0, 0, 2, 0x05, 0, 0, 0, 0, 2, 0x0A, 0x0B]);
        let mut link = remote();
        let mut wire = Wire::new(&bytes);
        let step = link.execute_command(&command(0x05));
        assert_eq!(wire.command(&mut link, step), Ok(vec![0x0A, 0x0B]));
        assert_eq!(wire.packet(&mut link), Ok(None));
    }
}

#[test]
fn no_packet_when_nothing_has_arrived() {
    for mut link in [local(), remote()] {
        let polling = match link.receive_packet() {
            PacketStep::Read(polling) => polling,
            other => panic!("unexpected step: {:?}", other),
        };
        assert_eq!(polling.missing(), 4);
        for kind in [IoKind::TimedOut] {
            let failure = IoFailure { kind, description: "timed out".to_string() };
            let event = ReadEvent { outcome: ReadOutcome::Failed(failure), elapsed_nanos: 0 };
            let mut other = local();
            let polling = match other.receive_packet() {
                PacketStep::Read(polling) => polling,
                step => panic!("unexpected step: {:?}", step),
            };
            match polling.accept(&mut other, event) {
                PacketStep::Done(packet) => assert_eq!(packet, Ok(None)),
                step => panic!("unexpected step: {:?}", step),
            }
        }
        match polling.accept(&mut link, not_ready(0)) {
            PacketStep::Done(packet) => assert_eq!(packet, Ok(None)),
            other => panic!("unexpected step: {:?}", other),
        }
    }
}

#[test]
fn packet_that_arrives_during_a_look_is_handed_out() {
    let mut link = remote();
    let mut wire = Wire::new(&[0, 0, 0, 3, 0x42, 0, 0, 0, 1, 9, 0, 0, 0, 3, 0x43, 0, 0, 0, 0]);
    assert_eq!(wire.packet(&mut link), Ok(Some(Packet { id: 0x42, data: vec![9] })));
    assert_eq!(wire.at, 10);
    assert_eq!(wire.packet(&mut link), Ok(Some(Packet { id: 0x43, data: vec![] })));
    assert_eq!(wire.packet(&mut link), Ok(None));
}

#[test]
fn response_outside_a_command_is_a_failure() {
    let mut link = local();
    let mut wire = Wire::new(b"CMPV\0\0\0\0");
    assert_eq!(
        wire.packet(&mut link),
        Err(Error::new("Unexpected command response in data stream"))
    );
}

#[test]
fn failure_during_a_look_is_not_marked() {
    let mut link = local();
    let mut wire = Wire::new(b"XYZ\x01");
    assert_eq!(wire.packet(&mut link), Err(Error::new("Unknown response token")));
}

fn port(name: &str, usb: Option<(u16, u16, Option<&str>)>) -> PortInfo {
    PortInfo {
        port_name: name.to_string(),
        usb: usb.map(|(vid, pid, serial_number)| UsbInfo {
            vid,
            pid,
            serial_number: serial_number.map(|text| text.to_string()),
        }),
    }
}

#[test]
fn devices_are_picked_by_ids_and_serial_number() {
    assert_eq!(SC64_VID, 0x0403);
    assert_eq!(SC64_PID, 0x6014);
    let ports = vec![
        port("/dev/ttyS0", None),
        port("/dev/ttyUSB0", Some((0x0403, 0x6014, Some("SC64000001")))),
        port("/dev/ttyUSB1", Some((0x0403, 0x6015, Some("SC64000002")))),
        port("/dev/ttyUSB2", Some((0x0404, 0x6014, Some("SC64000003")))),
        port("/dev/ttyUSB3", Some((0x0403, 0x6014, Some("FT000004")))),
        port("/dev/ttyUSB4", Some((0x0403, 0x6014, None))),
        port("/dev/ttyUSB5", Some((0x0403, 0x6014, Some("SC6")))),
        port("/dev/ttyUSB6", Some((0x0403, 0x6014, Some("SC64")))),
        port("/dev/ttyUSB7", Some((0x0403, 0x6014, Some("sc64000007")))),
        port("/dev/ttyUSB8", Some((0x0403, 0x6014, Some(" SC64000008")))),
    ];
    assert_eq!(
        list_local_devices(Ok(ports)),
        Ok(vec![
            LocalDevice { port: "/dev/ttyUSB0".to_string(), serial_number: "SC64000001".to_string() },
            LocalDevice { port: "/dev/ttyUSB6".to_string(), serial_number: "SC64".to_string() },
        ])
    );
}

#[test]
fn no_device_is_a_failure() {
    assert_eq!(list_local_devices(Ok(vec![])), Err(Error::new("No SC64 devices found")));
    let ports = vec![
        port("/dev/ttyS0", None),
        port("/dev/ttyUSB4", Some((0x0403, 0x6014, None))),
    ];
    assert_eq!(list_local_devices(Ok(ports)), Err(Error::new("No SC64 devices found")));
}

#[test]
fn failed_enumeration_is_a_failure() {
    assert_eq!(
        list_local_devices(Err("Permission denied".to_string())),
        Err(Error::new("SerialPort error: Permission denied"))
    );
}
