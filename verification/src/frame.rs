//! Wire formats: the values that travel over the link and the bytes that
//! stand for them on each of the two transports.
use vstd::prelude::*;
use vstd::slice::{slice_subrange, slice_to_vec};
use crate::error::Error;

verus! {

/// The four bytes of `value`, most significant first.
pub open spec fn be32(value: u32) -> Seq<u8> {
    seq![
        (value / 0x100_0000) as u8,
        ((value / 0x1_0000) % 0x100) as u8,
        ((value / 0x100) % 0x100) as u8,
        (value % 0x100) as u8,
    ]
}

/// The number that four bytes denote, most significant first.
pub open spec fn be32_value(bytes: Seq<u8>) -> u32
    recommends
        bytes.len() == 4,
{
    (bytes[0] * 0x100_0000 + bytes[1] * 0x1_0000 + bytes[2] * 0x100 + bytes[3]) as u32
}

/// Reading back the bytes of a number gives the number.
pub proof fn lemma_be32_value_of_be32(value: u32)
    ensures
        be32(value).len() == 4,
        be32_value(be32(value)) == value,
{
}

/// Appends the big-endian bytes of `value` to `out`.
pub fn put_be32(out: &mut Vec<u8>, value: u32)
    ensures
        final(out)@ == old(out)@ + be32(value),
{
    out.push((value / 0x100_0000) as u8);
    out.push(((value / 0x1_0000) % 0x100) as u8);
    out.push(((value / 0x100) % 0x100) as u8);
    out.push((value % 0x100) as u8);
    assert(out@ =~= old(out)@ + be32(value));
}

/// Appends `bytes` to `out`.
pub fn put_bytes(out: &mut Vec<u8>, bytes: &[u8])
    ensures
        final(out)@ == old(out)@ + bytes@,
{
    let mut at: usize = 0;
    while at < bytes.len()
        invariant
            at <= bytes@.len(),
            out@ == old(out)@ + bytes@.subrange(0, at as int),
        decreases bytes@.len() - at,
    {
        out.push(bytes[at]);
        at += 1;
        assert(out@ =~= old(out)@ + bytes@.subrange(0, at as int));
    }
    assert(bytes@.subrange(0, at as int) =~= bytes@);
}

/// Reads the big-endian number held in the four bytes that start at `at`.
pub fn get_be32(bytes: &[u8], at: usize) -> (value: u32)
    requires
        at + 4 <= bytes@.len(),
    ensures
        value == be32_value(bytes@.subrange(at as int, at + 4)),
{
    let b0: u32 = bytes[at] as u32;
    let b1: u32 = bytes[at + 1] as u32;
    let b2: u32 = bytes[at + 2] as u32;
    let b3: u32 = bytes[at + 3] as u32;
    b0 * 0x100_0000 + b1 * 0x1_0000 + b2 * 0x100 + b3
}

/// The kind of a frame on the stream transport.
#[derive(Clone, Copy, Debug, PartialEq, Eq)]
pub enum DataType {
    Command,
    Response,
    Packet,
    KeepAlive,
}

impl DataType {
    /// The number that announces a frame of this kind on the stream transport.
    pub open spec fn tag(self) -> u32 {
        match self {
            DataType::Command => 1,
            DataType::Response => 2,
            DataType::Packet => 3,
            DataType::KeepAlive => 0xCAFE_BEEF,
        }
    }

    /// Whether some kind of frame is announced by `value`.
    pub open spec fn known_tag(value: u32) -> bool {
        value == 1 || value == 2 || value == 3 || value == 0xCAFE_BEEF
    }
}

impl TryFrom<u32> for DataType {
    type Error = Error;

    /// The kind of frame that `value` announces; anything but the four
    /// known numbers is refused.
    fn try_from(value: u32) -> (kind: Result<DataType, Error>)
        ensures
            match kind {
                Ok(data_type) => data_type.tag() == value,
                Err(error) => !DataType::known_tag(value) && error@ == "Unknown data type"@,
            },
    {
        if value == 1 {
            Ok(DataType::Command)
        } else if value == 2 {
            Ok(DataType::Response)
        } else if value == 3 {
            Ok(DataType::Packet)
        } else if value == 0xCAFE_BEEF {
            Ok(DataType::KeepAlive)
        } else {
            Err(Error::new("Unknown data type"))
        }
    }
}

/// The failure of `try_from` is a value with a message, which no
/// expression of mathematics names: what `try_from` returns is said by its
/// own contract.
impl vstd::std_specs::convert::TryFromSpecImpl<u32> for DataType {
    open spec fn obeys_try_from_spec() -> bool {
        false
    }

    open spec fn try_from_spec(value: u32) -> Result<DataType, Error> {
        arbitrary()
    }
}

impl From<DataType> for u32 {
    fn from(value: DataType) -> (tag: u32) {
        match value {
            DataType::Command => 1,
            DataType::Response => 2,
            DataType::Packet => 3,
            DataType::KeepAlive => 0xCAFE_BEEF,
        }
    }
}

impl vstd::std_specs::convert::FromSpecImpl<DataType> for u32 {
    open spec fn obeys_from_spec() -> bool {
        true
    }

    open spec fn from_spec(value: DataType) -> u32 {
        value.tag()
    }
}

/// A request to the device: an operation, two scalar arguments and a body.
#[derive(Debug, Clone, PartialEq, Eq)]
pub struct Command {
    pub id: u8,
    pub args: [u32; 2],
    pub data: Vec<u8>,
}

/// What a `Command` is, as mathematics.
#[verifier::ext_equal]
pub struct CommandView {
    pub id: u8,
    pub args: (u32, u32),
    pub data: Seq<u8>,
}

impl View for Command {
    type V = CommandView;

    open spec fn view(&self) -> CommandView {
        CommandView { id: self.id, args: (self.args[0], self.args[1]), data: self.data@ }
    }
}

/// The device's reply to one command.
#[derive(Debug, Clone, PartialEq, Eq)]
pub struct Response {
    pub id: u8,
    pub data: Vec<u8>,
    pub error: bool,
}

/// What a `Response` is, as mathematics.
#[verifier::ext_equal]
pub struct ResponseView {
    pub id: u8,
    pub data: Seq<u8>,
    pub error: bool,
}

impl View for Response {
    type V = ResponseView;

    open spec fn view(&self) -> ResponseView {
        ResponseView { id: self.id, data: self.data@, error: self.error }
    }
}

/// Data that the device sends on its own account.
#[derive(Debug, Clone, PartialEq, Eq)]
pub struct Packet {
    pub id: u8,
    pub data: Vec<u8>,
}

/// What a `Packet` is, as mathematics.
#[verifier::ext_equal]
pub struct PacketView {
    pub id: u8,
    pub data: Seq<u8>,
}

impl View for Packet {
    type V = PacketView;

    open spec fn view(&self) -> PacketView {
        PacketView { id: self.id, data: self.data@ }
    }
}

/// The marker that opens a command on the serial transport: `CMD`.
pub open spec fn serial_command_marker() -> Seq<u8> {
    seq![0x43u8, 0x4Du8, 0x44u8]
}

/// The length field of a stream frame holds the low 32 bits of the length.
pub open spec fn length_field(length: nat) -> u32 {
    (length % 0x1_0000_0000) as u32
}

/// A command as the serial transport carries it: marker, id, the two
/// arguments, then the body up to the end.
pub open spec fn serial_command_bytes(command: CommandView) -> Seq<u8> {
    serial_command_marker() + seq![command.id] + be32(command.args.0) + be32(command.args.1)
        + command.data
}

/// A command as the stream transport carries it: type tag, id, the two
/// arguments, the length of the body, then the body.
pub open spec fn stream_command_bytes(command: CommandView) -> Seq<u8> {
    be32(DataType::Command.tag()) + seq![command.id] + be32(command.args.0) + be32(
        command.args.1,
    ) + be32(length_field(command.data.len())) + command.data
}

/// The command that a serial frame holds, if it is one.
pub open spec fn parse_serial_command(bytes: Seq<u8>) -> Option<CommandView> {
    if bytes.len() >= 12 && bytes.subrange(0, 3) == serial_command_marker() {
        Some(
            CommandView {
                id: bytes[3],
                args: (be32_value(bytes.subrange(4, 8)), be32_value(bytes.subrange(8, 12))),
                data: bytes.subrange(12, bytes.len() as int),
            },
        )
    } else {
        None
    }
}

/// The command that a stream frame holds, if it is one: the frame must end
/// where its length field says.
pub open spec fn parse_stream_command(bytes: Seq<u8>) -> Option<CommandView> {
    if bytes.len() >= 17 && be32_value(bytes.subrange(0, 4)) == DataType::Command.tag()
        && be32_value(bytes.subrange(13, 17)) == bytes.len() - 17 {
        Some(
            CommandView {
                id: bytes[4],
                args: (be32_value(bytes.subrange(5, 9)), be32_value(bytes.subrange(9, 13))),
                data: bytes.subrange(17, bytes.len() as int),
            },
        )
    } else {
        None
    }
}

/// Reads a command back from the bytes that the serial transport carries
/// for it, as the device does.
pub fn decode_serial_command(bytes: &[u8]) -> (command: Option<Command>)
    ensures
        match command {
            Some(decoded) => parse_serial_command(bytes@) == Some(decoded@),
            None => parse_serial_command(bytes@) is None,
        },
{
    let length: usize = bytes.len();
    if length < 12 {
        return None;
    }
    if bytes[0] != 0x43 || bytes[1] != 0x4D || bytes[2] != 0x44 {
        assert(bytes@.subrange(0, 3)[0] == bytes@[0]);
        assert(bytes@.subrange(0, 3)[1] == bytes@[1]);
        assert(bytes@.subrange(0, 3)[2] == bytes@[2]);
        return None;
    }
    assert(bytes@.subrange(0, 3) =~= serial_command_marker());
    let id: u8 = bytes[3];
    let first: u32 = get_be32(bytes, 4);
    let second: u32 = get_be32(bytes, 8);
    let data: Vec<u8> = slice_to_vec(slice_subrange(bytes, 12, length));
    let decoded = Command { id, args: [first, second], data };
    assert(decoded@ =~= parse_serial_command(bytes@)->0);
    Some(decoded)
}

/// Reads a command back from the bytes that the stream transport carries
/// for it, as the device does.
pub fn decode_stream_command(bytes: &[u8]) -> (command: Option<Command>)
    ensures
        match command {
            Some(decoded) => parse_stream_command(bytes@) == Some(decoded@),
            None => parse_stream_command(bytes@) is None,
        },
{
    let length: usize = bytes.len();
    if length < 17 {
        return None;
    }
    let tag: u32 = get_be32(bytes, 0);
    let announced: u32 = get_be32(bytes, 13);
    if tag != 1 || announced as u64 != (length - 17) as u64 {
        return None;
    }
    let id: u8 = bytes[4];
    let first: u32 = get_be32(bytes, 5);
    let second: u32 = get_be32(bytes, 9);
    let data: Vec<u8> = slice_to_vec(slice_subrange(bytes, 17, length));
    let decoded = Command { id, args: [first, second], data };
    assert(decoded@ =~= parse_stream_command(bytes@)->0);
    Some(decoded)
}

/// A command written for the serial transport reads back unchanged: the
/// same id, the same two arguments, the same body.
pub proof fn lemma_serial_command_round_trip(command: CommandView)
    ensures
        parse_serial_command(serial_command_bytes(command)) == Some(command),
{
    let bytes = serial_command_bytes(command);
    lemma_be32_value_of_be32(command.args.0);
    lemma_be32_value_of_be32(command.args.1);
    assert(bytes.subrange(0, 3) =~= serial_command_marker());
    assert(bytes.subrange(4, 8) =~= be32(command.args.0));
    assert(bytes.subrange(8, 12) =~= be32(command.args.1));
    assert(bytes.subrange(12, bytes.len() as int) =~= command.data);
    assert(parse_serial_command(bytes)->0 =~= command);
}

/// A command written for the stream transport reads back unchanged,
/// provided that the length of its body fits the 32-bit length field.
pub proof fn lemma_stream_command_round_trip(command: CommandView)
    requires
        command.data.len() <= u32::MAX,
    ensures
        parse_stream_command(stream_command_bytes(command)) == Some(command),
{
    let bytes = stream_command_bytes(command);
    let length = length_field(command.data.len());
    lemma_be32_value_of_be32(DataType::Command.tag());
    lemma_be32_value_of_be32(command.args.0);
    lemma_be32_value_of_be32(command.args.1);
    lemma_be32_value_of_be32(length);
    assert(bytes.subrange(0, 4) =~= be32(DataType::Command.tag()));
    assert(bytes.subrange(5, 9) =~= be32(command.args.0));
    assert(bytes.subrange(9, 13) =~= be32(command.args.1));
    assert(bytes.subrange(13, 17) =~= be32(length));
    assert(bytes.subrange(17, bytes.len() as int) =~= command.data);
    assert(parse_stream_command(bytes)->0 =~= command);
}

/// The packets of a queue, oldest first, as mathematics.
pub open spec fn queue_view(queue: Seq<Packet>) -> Seq<PacketView> {
    queue.map_values(|packet: Packet| packet@)
}

/// Adding a packet at the back of a queue adds its view at the back of
/// the queue's view.
pub proof fn lemma_queue_view_push(queue: Seq<Packet>, packet: Packet)
    ensures
        queue_view(queue.push(packet)) == queue_view(queue).push(packet@),
{
    assert(queue_view(queue.push(packet)) =~= queue_view(queue).push(packet@));
}

/// What a read session ends with, as mathematics: a response, nothing, or
/// the message of a failure.
pub open spec fn outcome_view(outcome: Result<Option<Response>, Error>) -> Result<
    Option<ResponseView>,
    Seq<char>,
> {
    match outcome {
        Ok(Some(response)) => Ok(Some(response@)),
        Ok(None) => Ok(None),
        Err(error) => Err(error@),
    }
}

/// The length of a payload followed by the payload, as both transports
/// carry them at the end of a frame.
pub open spec fn body_bytes(data: Seq<u8>) -> Seq<u8> {
    be32(length_field(data.len())) + data
}

/// A response as the serial transport carries it: the token `CMP`, or
/// `ERR` when it reports an error, then id, length and payload.
pub open spec fn serial_response_bytes(response: ResponseView) -> Seq<u8> {
    let token = if response.error {
        seq![0x45u8, 0x52u8, 0x52u8]
    } else {
        seq![0x43u8, 0x4Du8, 0x50u8]
    };
    token + seq![response.id] + body_bytes(response.data)
}

/// A packet as the serial transport carries it: the token `PKT`, then
/// id, length and payload.
pub open spec fn serial_packet_bytes(packet: PacketView) -> Seq<u8> {
    seq![0x50u8, 0x4Bu8, 0x54u8] + seq![packet.id] + body_bytes(packet.data)
}

/// A response frame of the stream transport: type tag, id, error flag,
/// length and payload. Any flag but zero marks an error.
pub open spec fn stream_response_frame(id: u8, flag: u8, data: Seq<u8>) -> Seq<u8> {
    be32(DataType::Response.tag()) + seq![id, flag] + body_bytes(data)
}

/// A response as the stream transport carries it, its error flag written
/// as one or zero.
pub open spec fn stream_response_bytes(response: ResponseView) -> Seq<u8> {
    stream_response_frame(response.id, if response.error { 1u8 } else { 0u8 }, response.data)
}

/// A packet as the stream transport carries it: type tag, id, length and
/// payload.
pub open spec fn stream_packet_bytes(packet: PacketView) -> Seq<u8> {
    be32(DataType::Packet.tag()) + seq![packet.id] + body_bytes(packet.data)
}

/// `count` keep-alive frames of the stream transport, each a bare type
/// tag.
pub open spec fn keep_alive_bytes(count: nat) -> Seq<u8>
    decreases count,
{
    if count == 0 {
        Seq::empty()
    } else {
        be32(DataType::KeepAlive.tag()) + keep_alive_bytes((count - 1) as nat)
    }
}

} // verus!
