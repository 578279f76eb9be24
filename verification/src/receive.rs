//! The read session of a transport: frames are read field by field and
//! told apart; packets go to the queue, a response ends the session.
use std::collections::VecDeque;
use vstd::prelude::*;
use crate::error::Error;
use crate::frame::{
    be32, be32_value, body_bytes, get_be32, keep_alive_bytes, lemma_be32_value_of_be32,
    lemma_queue_view_push, length_field, outcome_view, queue_view, serial_packet_bytes,
    serial_response_bytes, stream_packet_bytes, stream_response_bytes, stream_response_frame,
    DataType, Packet,
    PacketView, Response, ResponseView,
};
use crate::reader::{
    field_accept, fresh_reader, FieldReader, FieldReaderView, FieldStep, FieldStepView, Medium,
    ReadEvent, ReadEventView, ReadOutcomeView, READ_BUDGET_NANOS,
};

verus! {

/// What the head of an incoming frame says of it.
#[derive(Clone, Copy, Debug)]
pub struct Head {
    /// Whether the frame is a packet; else it is a response.
    pub packet: bool,
    /// The id that the frame carries.
    pub id: u8,
    /// Whether the response reports an error.
    pub error: bool,
}

/// The field of a frame that is being read.
#[derive(Clone, Copy, Debug)]
pub enum Stage {
    /// The first four bytes of a frame.
    Header,
    /// The id and the error flag of a response on the stream transport.
    ResponseInfo,
    /// The id of a packet on the stream transport.
    PacketInfo,
    /// The length of the payload.
    Length(Head),
    /// The payload.
    Payload(Head),
}

/// A read session in the course of a frame.
#[derive(Debug)]
pub struct Receiver {
    medium: Medium,
    expected: DataType,
    stage: Stage,
    reader: FieldReader,
}

/// What a `Receiver` is, as mathematics.
#[verifier::ext_equal]
pub struct ReceiverView {
    /// The transport, which decides the layout of the frames.
    pub medium: Medium,
    /// The kind of frame that the session is held for.
    pub expected: DataType,
    /// The field that is being read.
    pub stage: Stage,
    /// How far the reading of that field has come.
    pub reader: FieldReaderView,
}

impl View for Receiver {
    type V = ReceiverView;

    closed spec fn view(&self) -> ReceiverView {
        ReceiverView {
            medium: self.medium,
            expected: self.expected,
            stage: self.stage,
            reader: self.reader@,
        }
    }
}

/// What is to be done next in a read session.
#[derive(Debug)]
pub enum Progress {
    /// Read at most `missing()` bytes and hand the report to `accept`.
    Read(Receiver),
    /// The session is over: with a response, with none, or with a failure.
    Done(Result<Option<Response>, Error>),
}

/// What a `Progress` is, as mathematics.
#[verifier::ext_equal]
pub enum ProgressView {
    Read(ReceiverView),
    Done(Result<Option<ResponseView>, Seq<char>>),
}

impl View for Progress {
    type V = ProgressView;

    open spec fn view(&self) -> ProgressView {
        match *self {
            Progress::Read(receiver) => ProgressView::Read(receiver@),
            Progress::Done(outcome) => ProgressView::Done(outcome_view(outcome)),
        }
    }
}

/// A session held for a response waits for its frames; any other session
/// ends when the transport has nothing at the start of a frame.
pub open spec fn waits(expected: DataType) -> bool {
    expected is Response
}

/// A session at the start of a frame.
pub open spec fn receiver_begin(medium: Medium, expected: DataType) -> ReceiverView {
    ReceiverView {
        medium,
        expected,
        stage: Stage::Header,
        reader: fresh_reader(medium, 4, waits(expected)),
    }
}

/// What the first three bytes of a serial frame say: `CMP` opens a
/// response, `PKT` a packet, `ERR` a response that reports an error.
pub open spec fn serial_token(header: Seq<u8>) -> Option<(bool, bool)> {
    if header[0] == 0x43 && header[1] == 0x4D && header[2] == 0x50 {
        Some((false, false))
    } else if header[0] == 0x50 && header[1] == 0x4B && header[2] == 0x54 {
        Some((true, false))
    } else if header[0] == 0x45 && header[1] == 0x52 && header[2] == 0x52 {
        Some((false, true))
    } else {
        None
    }
}

/// The session that goes on to read the field of `wanted` bytes at
/// `stage`, waiting for it.
pub open spec fn receiver_at(receiver: ReceiverView, stage: Stage, wanted: nat) -> ReceiverView {
    ReceiverView { stage, reader: fresh_reader(receiver.medium, wanted, true), ..receiver }
}

/// What follows a whole frame. A packet joins the queue at the back; the
/// session then ends without a response if it was held for a packet, and
/// goes on with the next frame otherwise. A response ends the session and
/// leaves the queue as it was.
pub open spec fn frame_done(
    receiver: ReceiverView,
    head: Head,
    data: Seq<u8>,
    queue: Seq<PacketView>,
) -> (ProgressView, Seq<PacketView>) {
    if head.packet {
        let queue = queue.push(PacketView { id: head.id, data });
        if receiver.expected is Packet {
            (ProgressView::Done(Ok(None)), queue)
        } else {
            (ProgressView::Read(receiver_begin(receiver.medium, receiver.expected)), queue)
        }
    } else {
        (
            ProgressView::Done(Ok(Some(ResponseView { id: head.id, data, error: head.error }))),
            queue,
        )
    }
}

/// What follows the header of a serial frame: the token tells the kind of
/// the frame, the fourth byte is its id, the length comes next.
pub open spec fn serial_header(receiver: ReceiverView, header: Seq<u8>) -> ProgressView {
    match serial_token(header) {
        Some((packet, error)) => ProgressView::Read(
            receiver_at(receiver, Stage::Length(Head { packet, id: header[3], error }), 4),
        ),
        None => ProgressView::Done(Err("Unknown response token"@)),
    }
}

/// What follows the header of a stream frame, which is its type tag: a
/// response goes on with two bytes of information, a packet with one, a
/// keep-alive has no body and the next frame follows. Every other tag,
/// that of a command as well as a number that is no tag at all, is a
/// frame that has no place here, and ends the session with one and the
/// same failure.
pub open spec fn stream_header(receiver: ReceiverView, header: Seq<u8>) -> ProgressView {
    let tag = be32_value(header);
    if tag == DataType::Response.tag() {
        ProgressView::Read(receiver_at(receiver, Stage::ResponseInfo, 2))
    } else if tag == DataType::Packet.tag() {
        ProgressView::Read(receiver_at(receiver, Stage::PacketInfo, 1))
    } else if tag == DataType::KeepAlive.tag() {
        ProgressView::Read(receiver_begin(receiver.medium, receiver.expected))
    } else {
        ProgressView::Done(Err("Unexpected payload data type received"@))
    }
}

/// What follows a whole field, and the queue after it.
pub open spec fn after_field(receiver: ReceiverView, field: Seq<u8>, queue: Seq<PacketView>) -> (
    ProgressView,
    Seq<PacketView>,
) {
    match receiver.stage {
        Stage::Header => match receiver.medium {
            Medium::Serial => (serial_header(receiver, field), queue),
            Medium::Stream => (stream_header(receiver, field), queue),
        },
        Stage::ResponseInfo => (
            ProgressView::Read(
                receiver_at(
                    receiver,
                    Stage::Length(Head { packet: false, id: field[0], error: field[1] != 0 }),
                    4,
                ),
            ),
            queue,
        ),
        Stage::PacketInfo => (
            ProgressView::Read(
                receiver_at(
                    receiver,
                    Stage::Length(Head { packet: true, id: field[0], error: false }),
                    4,
                ),
            ),
            queue,
        ),
        Stage::Length(head) => {
            let length = be32_value(field);
            if length == 0 {
                frame_done(receiver, head, Seq::empty(), queue)
            } else {
                (
                    ProgressView::Read(receiver_at(receiver, Stage::Payload(head), length as nat)),
                    queue,
                )
            }
        },
        Stage::Payload(head) => frame_done(receiver, head, field, queue),
    }
}

/// What follows the report of a read, and the queue after it.
///
/// While the field is unfinished the session asks for the next read. A
/// whole field is looked at by `after_field`. When the transport has
/// nothing at the start of a frame and the session does not wait, it ends
/// without a response. A failure of the reader is that of the session.
pub open spec fn receiver_accept(
    receiver: ReceiverView,
    event: ReadEventView,
    queue: Seq<PacketView>,
) -> (ProgressView, Seq<PacketView>) {
    match field_accept(receiver.reader, event) {
        FieldStepView::Read(reader) => (
            ProgressView::Read(ReceiverView { reader, ..receiver }),
            queue,
        ),
        FieldStepView::Complete(field) => after_field(receiver, field, queue),
        FieldStepView::Nothing => if receiver.stage is Header {
            (ProgressView::Done(Ok(None)), queue)
        } else {
            (ProgressView::Done(Err(receiver.medium.end_message())), queue)
        },
        FieldStepView::Failed(message) => (ProgressView::Done(Err(message)), queue),
    }
}

impl Receiver {
    #[verifier::type_invariant]
    spec fn well_formed(self) -> bool {
        &&& self.reader@.medium == self.medium
        &&& match self.stage {
            Stage::Header => self.reader@.wanted == 4,
            Stage::ResponseInfo => self.reader@.wanted == 2,
            Stage::PacketInfo => self.reader@.wanted == 1,
            Stage::Length(_) => self.reader@.wanted == 4,
            Stage::Payload(_) => true,
        }
    }

    /// Opens a read session on `medium`, held for a frame of the kind
    /// `expected`: it starts with the header of a frame.
    pub fn begin(medium: Medium, expected: DataType) -> (receiver: Receiver)
        ensures
            receiver@ == receiver_begin(medium, expected),
    {
        let blocking: bool = match expected {
            DataType::Response => true,
            _ => false,
        };
        let reader = FieldReader::open(medium, 4, blocking);
        Receiver { medium, expected, stage: Stage::Header, reader }
    }

    /// The most that the next read may give.
    pub fn missing(&self) -> (length: usize)
        ensures
            length == self@.reader.wanted - self@.reader.buffer.len(),
            length > 0,
    {
        self.reader.missing()
    }

    /// Whether the next read is the first of its field, so that the time
    /// reported with it is counted from there.
    pub fn restarts_clock(&self) -> (restart: bool)
        ensures
            restart == !self@.reader.started,
    {
        self.reader.restarts_clock()
    }

    /// Goes on to the field of `wanted` bytes at `stage`.
    fn next_field(medium: Medium, expected: DataType, stage: Stage, wanted: usize) -> (progress:
        Progress)
        requires
            wanted > 0,
            match stage {
                Stage::Header => false,
                Stage::ResponseInfo => wanted == 2,
                Stage::PacketInfo => wanted == 1,
                Stage::Length(_) => wanted == 4,
                Stage::Payload(_) => true,
            },
        ensures
            progress@ == ProgressView::Read(
                ReceiverView {
                    medium,
                    expected,
                    stage,
                    reader: fresh_reader(medium, wanted as nat, true),
                },
            ),
    {
        let reader = FieldReader::open(medium, wanted, true);
        Progress::Read(Receiver { medium, expected, stage, reader })
    }

    /// Ends a frame: see `frame_done`.
    fn finish_frame(
        medium: Medium,
        expected: DataType,
        head: Head,
        data: Vec<u8>,
        packets: &mut VecDeque<Packet>,
    ) -> (progress: Progress)
        ensures
            (progress@, queue_view(final(packets)@)) == frame_done(
                receiver_begin(medium, expected),
                head,
                data@,
                queue_view(old(packets)@),
            ),
    {
        if head.packet {
            let packet = Packet { id: head.id, data };
            proof {
                lemma_queue_view_push(packets@, packet);
            }
            packets.push_back(packet);
            match expected {
                DataType::Packet => Progress::Done(Ok(None)),
                _ => Progress::Read(Receiver::begin(medium, expected)),
            }
        } else {
            Progress::Done(Ok(Some(Response { id: head.id, data, error: head.error })))
        }
    }

    /// Looks at the header of a serial frame: see `serial_header`.
    fn serial_header(medium: Medium, expected: DataType, header: &Vec<u8>) -> (progress: Progress)
        requires
            header@.len() == 4,
        ensures
            progress@ == serial_header(receiver_begin(medium, expected), header@),
    {
        let first: u8 = header[0];
        let second: u8 = header[1];
        let third: u8 = header[2];
        let id: u8 = header[3];
        if first == 0x43 && second == 0x4D && third == 0x50 {
            Receiver::next_field(
                medium,
                expected,
                Stage::Length(Head { packet: false, id, error: false }),
                4,
            )
        } else if first == 0x50 && second == 0x4B && third == 0x54 {
            Receiver::next_field(
                medium,
                expected,
                Stage::Length(Head { packet: true, id, error: false }),
                4,
            )
        } else if first == 0x45 && second == 0x52 && third == 0x52 {
            Receiver::next_field(
                medium,
                expected,
                Stage::Length(Head { packet: false, id, error: true }),
                4,
            )
        } else {
            Progress::Done(Err(Error::new("Unknown response token")))
        }
    }

    /// Looks at the header of a stream frame: see `stream_header`.
    fn stream_header(medium: Medium, expected: DataType, header: &Vec<u8>) -> (progress: Progress)
        requires
            header@.len() == 4,
        ensures
            progress@ == stream_header(receiver_begin(medium, expected), header@),
    {
        assert(header@.subrange(0, 4) =~= header@);
        let tag: u32 = get_be32(header.as_slice(), 0);
        match DataType::try_from(tag) {
            Ok(DataType::Response) => Receiver::next_field(
                medium,
                expected,
                Stage::ResponseInfo,
                2,
            ),
            Ok(DataType::Packet) => Receiver::next_field(medium, expected, Stage::PacketInfo, 1),
            Ok(DataType::KeepAlive) => Progress::Read(Receiver::begin(medium, expected)),
            Ok(DataType::Command) | Err(_) => Progress::Done(
                Err(Error::new("Unexpected payload data type received")),
            ),
        }
    }

    /// Takes the report of the read that was asked for, moves the packets
    /// that it completes to the back of `packets`, and says what follows.
    pub fn accept(self, event: ReadEvent, packets: &mut VecDeque<Packet>) -> (progress: Progress)
        requires
            event@.fits(self@.reader.wanted - self@.reader.buffer.len()),
        ensures
            (progress@, queue_view(final(packets)@)) == receiver_accept(
                self@,
                event@,
                queue_view(old(packets)@),
            ),
    {
        proof {
            use_type_invariant(&self);
        }
        let ghost before = self@;
        let Receiver { medium, expected, stage, reader } = self;
        match reader.accept(event) {
            FieldStep::Read(reader) => Progress::Read(Receiver { medium, expected, stage, reader }),
            FieldStep::Nothing => match stage {
                Stage::Header => Progress::Done(Ok(None)),
                _ => Progress::Done(Err(medium.end_error())),
            },
            FieldStep::Failed(error) => Progress::Done(Err(error)),
            FieldStep::Complete(field) => {
                assert(field@.len() == before.reader.wanted);
                match stage {
                    Stage::Header => match medium {
                        Medium::Serial => Receiver::serial_header(medium, expected, &field),
                        Medium::Stream => Receiver::stream_header(medium, expected, &field),
                    },
                    Stage::ResponseInfo => {
                        let id: u8 = field[0];
                        let error: bool = field[1] != 0;
                        Receiver::next_field(
                            medium,
                            expected,
                            Stage::Length(Head { packet: false, id, error }),
                            4,
                        )
                    },
                    Stage::PacketInfo => {
                        let id: u8 = field[0];
                        Receiver::next_field(
                            medium,
                            expected,
                            Stage::Length(Head { packet: true, id, error: false }),
                            4,
                        )
                    },
                    Stage::Length(head) => {
                        assert(field@.subrange(0, 4) =~= field@);
                        let length: u32 = get_be32(field.as_slice(), 0);
                        if length == 0 {
                            Receiver::finish_frame(medium, expected, head, Vec::new(), packets)
                        } else {
                            Receiver::next_field(
                                medium,
                                expected,
                                Stage::Payload(head),
                                length as usize,
                            )
                        }
                    },
                    Stage::Payload(head) => Receiver::finish_frame(
                        medium,
                        expected,
                        head,
                        field,
                        packets,
                    ),
                }
            },
        }
    }
}

/// The report of a read that gave `bytes` at once.
pub open spec fn prompt(bytes: Seq<u8>) -> ReadEventView {
    ReadEventView { outcome: ReadOutcomeView::Data(bytes), elapsed_nanos: 0 }
}

/// The read session after the transport has handed over `bytes`, each
/// read giving all that it asked for, and the queue after it. The session
/// stops where it ends, or where the bytes that are left do not fill the
/// next read.
pub open spec fn receive_all(receiver: ReceiverView, bytes: Seq<u8>, queue: Seq<PacketView>) -> (
    ProgressView,
    Seq<PacketView>,
)
    decreases bytes.len(),
{
    let missing = receiver.reader.wanted - receiver.reader.buffer.len();
    if 0 < missing <= bytes.len() {
        let (progress, queue) = receiver_accept(receiver, prompt(bytes.take(missing)), queue);
        match progress {
            ProgressView::Read(next) => receive_all(next, bytes.skip(missing), queue),
            ProgressView::Done(_) => (progress, queue),
        }
    } else {
        (ProgressView::Read(receiver), queue)
    }
}

/// A session that is over stays so; one that goes on takes `rest`.
pub open spec fn receive_rest(
    step: (ProgressView, Seq<PacketView>),
    rest: Seq<u8>,
) -> (ProgressView, Seq<PacketView>) {
    match step.0 {
        ProgressView::Read(next) => receive_all(next, rest, step.1),
        ProgressView::Done(_) => step,
    }
}

/// A response as a transport carries it.
pub open spec fn response_bytes(medium: Medium, response: ResponseView) -> Seq<u8> {
    match medium {
        Medium::Serial => serial_response_bytes(response),
        Medium::Stream => stream_response_bytes(response),
    }
}

/// A packet as a transport carries it.
pub open spec fn packet_bytes(medium: Medium, packet: PacketView) -> Seq<u8> {
    match medium {
        Medium::Serial => serial_packet_bytes(packet),
        Medium::Stream => stream_packet_bytes(packet),
    }
}

/// Some packets as a transport carries them, one after the other.
pub open spec fn packets_bytes(medium: Medium, packets: Seq<PacketView>) -> Seq<u8>
    decreases packets.len(),
{
    if packets.len() == 0 {
        Seq::empty()
    } else {
        packet_bytes(medium, packets[0]) + packets_bytes(
            medium,
            packets.subrange(1, packets.len() as int),
        )
    }
}

/// A field that arrives whole is looked at, and the session goes on with
/// what follows it.
pub proof fn lemma_receive_field(
    receiver: ReceiverView,
    field: Seq<u8>,
    rest: Seq<u8>,
    queue: Seq<PacketView>,
)
    requires
        receiver.reader.buffer.len() == 0,
        field.len() == receiver.reader.wanted,
        field.len() > 0,
    ensures
        receive_all(receiver, field + rest, queue) == receive_rest(
            after_field(receiver, field, queue),
            rest,
        ),
{
    let bytes = field + rest;
    assert(bytes.take(field.len() as int) =~= field);
    assert(bytes.skip(field.len() as int) =~= rest);
    assert(receiver.reader.buffer + field =~= field);
}

/// The length and the payload of a frame, arriving whole, end the frame.
pub proof fn lemma_receive_body(
    receiver: ReceiverView,
    head: Head,
    data: Seq<u8>,
    rest: Seq<u8>,
    queue: Seq<PacketView>,
)
    requires
        receiver.stage == Stage::Length(head),
        receiver.reader == fresh_reader(receiver.medium, 4, true),
        data.len() <= u32::MAX,
    ensures
        receive_all(receiver, body_bytes(data) + rest, queue) == receive_rest(
            frame_done(receiver, head, data, queue),
            rest,
        ),
{
    let length = be32(length_field(data.len()));
    lemma_be32_value_of_be32(length_field(data.len()));
    assert(body_bytes(data) + rest =~= length + (data + rest));
    lemma_receive_field(receiver, length, data + rest, queue);
    if data.len() == 0 {
        assert(data =~= Seq::empty());
        assert(data + rest =~= rest);
    } else {
        let payload = receiver_at(receiver, Stage::Payload(head), data.len());
        lemma_receive_field(payload, data, rest, queue);
    }
}

/// A packet that arrives whole at the start of a frame joins the queue at
/// the back. A session held for a packet ends there; any other goes on
/// with what follows the packet.
pub proof fn lemma_receive_packet(
    medium: Medium,
    expected: DataType,
    packet: PacketView,
    rest: Seq<u8>,
    queue: Seq<PacketView>,
)
    requires
        packet.data.len() <= u32::MAX,
    ensures
        receive_all(
            receiver_begin(medium, expected),
            packet_bytes(medium, packet) + rest,
            queue,
        ) == if expected is Packet {
            (ProgressView::Done(Ok(None)), queue.push(packet))
        } else {
            receive_all(receiver_begin(medium, expected), rest, queue.push(packet))
        },
{
    let begin = receiver_begin(medium, expected);
    let body = body_bytes(packet.data);
    let head = Head { packet: true, id: packet.id, error: false };
    let length = receiver_at(begin, Stage::Length(head), 4);
    match medium {
        Medium::Serial => {
            let header = seq![0x50u8, 0x4Bu8, 0x54u8, packet.id];
            assert(packet_bytes(medium, packet) + rest =~= header + (body + rest));
            lemma_receive_field(begin, header, body + rest, queue);
            lemma_receive_body(length, head, packet.data, rest, queue);
        },
        Medium::Stream => {
            let header = be32(DataType::Packet.tag());
            let info = seq![packet.id];
            lemma_be32_value_of_be32(DataType::Packet.tag());
            assert(packet_bytes(medium, packet) + rest =~= header + (info + (body + rest)));
            lemma_receive_field(begin, header, info + (body + rest), queue);
            lemma_receive_field(
                receiver_at(begin, Stage::PacketInfo, 1),
                info,
                body + rest,
                queue,
            );
            lemma_receive_body(length, head, packet.data, rest, queue);
        },
    }
}

/// On the stream transport every error flag but zero marks an error: a
/// response frame that arrives whole at the start of a frame, with any
/// byte as its flag, ends the session with the response that reports an
/// error exactly if the flag is not zero, and the queue is as it was.
pub proof fn lemma_receive_flagged_response(
    expected: DataType,
    id: u8,
    flag: u8,
    data: Seq<u8>,
    rest: Seq<u8>,
    queue: Seq<PacketView>,
)
    requires
        data.len() <= u32::MAX,
    ensures
        receive_all(
            receiver_begin(Medium::Stream, expected),
            stream_response_frame(id, flag, data) + rest,
            queue,
        ) == (ProgressView::Done(Ok(Some(ResponseView { id, data, error: flag != 0 }))), queue),
{
    let begin = receiver_begin(Medium::Stream, expected);
    let body = body_bytes(data);
    let head = Head { packet: false, id, error: flag != 0 };
    let header = be32(DataType::Response.tag());
    let info = seq![id, flag];
    lemma_be32_value_of_be32(DataType::Response.tag());
    assert(stream_response_frame(id, flag, data) + rest =~= header + (info + (body + rest)));
    lemma_receive_field(begin, header, info + (body + rest), queue);
    lemma_receive_field(receiver_at(begin, Stage::ResponseInfo, 2), info, body + rest, queue);
    lemma_receive_body(receiver_at(begin, Stage::Length(head), 4), head, data, rest, queue);
}

/// A response that arrives whole at the start of a frame ends the
/// session: the session gives that response, and the queue is as it was.
pub proof fn lemma_receive_response(
    medium: Medium,
    expected: DataType,
    response: ResponseView,
    rest: Seq<u8>,
    queue: Seq<PacketView>,
)
    requires
        response.data.len() <= u32::MAX,
    ensures
        receive_all(
            receiver_begin(medium, expected),
            response_bytes(medium, response) + rest,
            queue,
        ) == (ProgressView::Done(Ok(Some(response))), queue),
{
    let begin = receiver_begin(medium, expected);
    let body = body_bytes(response.data);
    let head = Head { packet: false, id: response.id, error: response.error };
    let length = receiver_at(begin, Stage::Length(head), 4);
    match medium {
        Medium::Serial => {
            let header = if response.error {
                seq![0x45u8, 0x52u8, 0x52u8, response.id]
            } else {
                seq![0x43u8, 0x4Du8, 0x50u8, response.id]
            };
            assert(response_bytes(medium, response) + rest =~= header + (body + rest));
            lemma_receive_field(begin, header, body + rest, queue);
            lemma_receive_body(length, head, response.data, rest, queue);
        },
        Medium::Stream => {
            lemma_receive_flagged_response(
                expected,
                response.id,
                if response.error { 1u8 } else { 0u8 },
                response.data,
                rest,
                queue,
            );
        },
    }
}

/// Keep-alive frames at the start of a frame are read and change
/// nothing: the session goes on with what follows them as if they had not
/// been sent.
pub proof fn lemma_receive_keep_alives(
    expected: DataType,
    count: nat,
    rest: Seq<u8>,
    queue: Seq<PacketView>,
)
    ensures
        receive_all(
            receiver_begin(Medium::Stream, expected),
            keep_alive_bytes(count) + rest,
            queue,
        ) == receive_all(receiver_begin(Medium::Stream, expected), rest, queue),
    decreases count,
{
    let begin = receiver_begin(Medium::Stream, expected);
    if count == 0 {
        assert(keep_alive_bytes(count) + rest =~= rest);
    } else {
        let header = be32(DataType::KeepAlive.tag());
        let others = keep_alive_bytes((count - 1) as nat);
        lemma_be32_value_of_be32(DataType::KeepAlive.tag());
        assert(keep_alive_bytes(count) + rest =~= header + (others + rest));
        lemma_receive_field(begin, header, others + rest, queue);
        lemma_receive_keep_alives(expected, (count - 1) as nat, rest, queue);
    }
}

/// Packets that arrive whole, one after the other, in a session that is
/// not held for a packet all join the queue at the back, in the order of
/// their arrival, and the session goes on with what follows them.
pub proof fn lemma_receive_packets(
    medium: Medium,
    expected: DataType,
    packets: Seq<PacketView>,
    rest: Seq<u8>,
    queue: Seq<PacketView>,
)
    requires
        !(expected is Packet),
        forall|i: int| 0 <= i < packets.len() ==> (#[trigger] packets[i]).data.len() <= u32::MAX,
    ensures
        receive_all(
            receiver_begin(medium, expected),
            packets_bytes(medium, packets) + rest,
            queue,
        ) == receive_all(receiver_begin(medium, expected), rest, queue + packets),
    decreases packets.len(),
{
    if packets.len() == 0 {
        assert(packets_bytes(medium, packets) + rest =~= rest);
        assert(queue + packets =~= queue);
    } else {
        let first = packets[0];
        let others = packets.subrange(1, packets.len() as int);
        let tail = packets_bytes(medium, others);
        assert(packets_bytes(medium, packets) + rest =~= packet_bytes(medium, first) + (tail
            + rest));
        lemma_receive_packet(medium, expected, first, tail + rest, queue);
        lemma_receive_packets(medium, expected, others, rest, queue.push(first));
        assert(queue.push(first) + others =~= queue + packets);
    }
}

/// The bytes that a report hands over: those of a read that gave some,
/// none for a read that failed.
pub open spec fn bytes_of(event: ReadEventView) -> Seq<u8> {
    match event.outcome {
        ReadOutcomeView::Data(bytes) => bytes,
        ReadOutcomeView::Failed(_) => Seq::empty(),
    }
}

/// The bytes that some reports hand over, in their order.
pub open spec fn bytes_of_all(events: Seq<ReadEventView>) -> Seq<u8>
    decreases events.len(),
{
    if events.len() == 0 {
        Seq::empty()
    } else {
        bytes_of(events[0]) + bytes_of_all(events.skip(1))
    }
}

/// Whether the reports are those of a transport that stands and is in
/// time: every read gave at least one byte or found nothing ready, and
/// came back within the budget of its field.
pub open spec fn orderly(events: Seq<ReadEventView>) -> bool {
    forall|i: int|
        0 <= i < events.len() ==> {
            &&& (#[trigger] events[i]).elapsed_nanos <= READ_BUDGET_NANOS
            &&& match events[i].outcome {
                ReadOutcomeView::Data(bytes) => bytes.len() > 0,
                ReadOutcomeView::Failed(failure) => failure.kind.transient(),
            }
        }
}

/// The read session after the reports `events` of the reads that it asked
/// for, one after the other, and the queue after it. The session stops
/// where it ends.
pub open spec fn feed(receiver: ReceiverView, events: Seq<ReadEventView>, queue: Seq<PacketView>)
    -> (ProgressView, Seq<PacketView>)
    decreases events.len(),
{
    if events.len() == 0 {
        (ProgressView::Read(receiver), queue)
    } else {
        let (progress, queue) = receiver_accept(receiver, events[0], queue);
        match progress {
            ProgressView::Read(next) => feed(next, events.skip(1), queue),
            ProgressView::Done(_) => (progress, queue),
        }
    }
}

/// Whether each of the reports `events` answers the read that the session
/// asked for when it came: no read gives more than it was asked for.
pub open spec fn feed_fits(
    receiver: ReceiverView,
    events: Seq<ReadEventView>,
    queue: Seq<PacketView>,
) -> bool
    decreases events.len(),
{
    events.len() == 0 || {
        let (progress, queue) = receiver_accept(receiver, events[0], queue);
        &&& events[0].fits(receiver.reader.wanted - receiver.reader.buffer.len())
        &&& match progress {
            ProgressView::Read(next) => feed_fits(next, events.skip(1), queue),
            ProgressView::Done(_) => true,
        }
    }
}

/// A session that is held for a response, and so waits for every field.
pub open spec fn steady(receiver: ReceiverView) -> bool {
    &&& receiver.expected is Response
    &&& receiver.reader.blocking
    &&& receiver.reader.buffer.len() < receiver.reader.wanted
}

/// A part of a field that has come already makes no difference to the end
/// of a session: the session that holds the part and is handed the rest
/// ends as the session that is handed both.
pub proof fn lemma_receive_part(
    receiver: ReceiverView,
    part: Seq<u8>,
    rest: Seq<u8>,
    queue: Seq<PacketView>,
)
    requires
        receiver.reader.buffer.len() + part.len() < receiver.reader.wanted,
        receive_all(receiver, part + rest, queue).0 is Done,
    ensures
        receive_all(
            ReceiverView {
                reader: FieldReaderView {
                    buffer: receiver.reader.buffer + part,
                    started: true,
                    ..receiver.reader
                },
                ..receiver
            },
            rest,
            queue,
        ) == receive_all(receiver, part + rest, queue),
{
    let later = ReceiverView {
        reader: FieldReaderView {
            buffer: receiver.reader.buffer + part,
            started: true,
            ..receiver.reader
        },
        ..receiver
    };
    let missing = receiver.reader.wanted - receiver.reader.buffer.len();
    let left = missing - part.len();
    let bytes = part + rest;
    assert(missing <= bytes.len());
    let field = receiver.reader.buffer + bytes.take(missing);
    assert(later.reader.buffer + rest.take(left) =~= field);
    assert(bytes.skip(missing) =~= rest.skip(left));
    assert(after_field(later, field, queue) == after_field(receiver, field, queue));
}

/// A session held for a response comes to the same end however the
/// transport cuts the bytes that it hands over, and however often it has
/// nothing ready in between, as long as it stands and is in time: the end
/// is that of the session which gets every field in one read.
pub proof fn lemma_feed(receiver: ReceiverView, events: Seq<ReadEventView>, queue: Seq<PacketView>)
    requires
        steady(receiver),
        orderly(events),
        feed_fits(receiver, events, queue),
        receive_all(receiver, bytes_of_all(events), queue).0 is Done,
    ensures
        feed(receiver, events, queue) == receive_all(receiver, bytes_of_all(events), queue),
    decreases events.len(),
{
    if events.len() == 0 {
    } else {
        let event = events[0];
        let others = events.skip(1);
        let rest = bytes_of_all(others);
        let part = bytes_of(event);
        let missing = receiver.reader.wanted - receiver.reader.buffer.len();
        let (progress, after) = receiver_accept(receiver, event, queue);
        assert(orderly(others)) by {
            assert forall|i: int| 0 <= i < others.len() implies {
                &&& (#[trigger] others[i]).elapsed_nanos <= READ_BUDGET_NANOS
                &&& match others[i].outcome {
                    ReadOutcomeView::Data(bytes) => bytes.len() > 0,
                    ReadOutcomeView::Failed(failure) => failure.kind.transient(),
                }
            } by {
                assert(others[i] == events[i + 1]);
            }
        }
        if part.len() == missing {
            assert((part + rest).take(missing) =~= part);
            assert((part + rest).skip(missing) =~= rest);
            match progress {
                ProgressView::Read(next) => {
                    lemma_feed(next, others, after);
                },
                ProgressView::Done(_) => {},
            }
        } else {
            let later = ReceiverView {
                reader: FieldReaderView {
                    buffer: receiver.reader.buffer + part,
                    started: true,
                    ..receiver.reader
                },
                ..receiver
            };
            assert(progress == ProgressView::Read(later));
            lemma_receive_part(receiver, part, rest, queue);
            lemma_feed(later, others, queue);
        }
    }
}

} // verus!
