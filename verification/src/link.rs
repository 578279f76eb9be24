//! The dispatcher: it runs one command at a time over a transport, and
//! keeps the packets that arrive on their own account until they are
//! asked for.
use std::collections::VecDeque;
use vstd::prelude::*;
use vstd::string::StringExecFns;
use crate::error::{io_error_message, report_view, Error, IoFailure, IoFailureView};
use crate::frame::{
    keep_alive_bytes, outcome_view, queue_view, serial_command_bytes, stream_command_bytes,
    stream_response_frame, Command, CommandView, DataType, Packet, PacketView, Response,
    ResponseView,
};
use crate::reader::{Medium, ReadEvent, ReadEventView, ReadOutcomeView};
use crate::receive::{
    bytes_of_all, feed, feed_fits, lemma_feed, lemma_receive_flagged_response,
    lemma_receive_keep_alives, lemma_receive_packets,
    lemma_receive_response, orderly, packets_bytes, receiver_accept, receiver_begin,
    response_bytes, Progress, ProgressView, Receiver, ReceiverView,
};
use crate::serial::Serial;
use crate::stream::TcpBackend;

verus! {

/// The transport of a link.
#[derive(Debug)]
enum Backend {
    Serial(Serial),
    Tcp(TcpBackend),
}

impl Backend {
    spec fn medium(self) -> Medium {
        match self {
            Backend::Serial(_) => Medium::Serial,
            Backend::Tcp(_) => Medium::Stream,
        }
    }

    fn send_command(&self, command: &Command) -> (bytes: Vec<u8>)
        ensures
            bytes@ == command_bytes(self.medium(), command@),
    {
        match self {
            Backend::Serial(serial) => serial.send_command(command),
            Backend::Tcp(stream) => stream.send_command(command),
        }
    }

    fn process_incoming_data(&self, data_type: DataType) -> (receiver: Receiver)
        ensures
            receiver@ == receiver_begin(self.medium(), data_type),
    {
        match self {
            Backend::Serial(serial) => serial.process_incoming_data(data_type),
            Backend::Tcp(stream) => stream.process_incoming_data(data_type),
        }
    }
}

/// One transport, and the packets that have arrived on it and have not
/// been asked for yet, oldest first.
#[derive(Debug)]
pub struct Link {
    backend: Backend,
    packets: VecDeque<Packet>,
}

/// What a `Link` is, as mathematics.
#[verifier::ext_equal]
pub struct LinkView {
    /// The transport.
    pub medium: Medium,
    /// The packets that wait, oldest first.
    pub packets: Seq<PacketView>,
}

impl View for Link {
    type V = LinkView;

    closed spec fn view(&self) -> LinkView {
        LinkView { medium: self.backend.medium(), packets: queue_view(self.packets@) }
    }
}

/// A command that is being written to the transport.
#[derive(Debug)]
pub struct Sending {
    medium: Medium,
    command_id: u8,
    no_response: bool,
    ignore_error: bool,
}

/// What a `Sending` is, as mathematics.
pub struct SendingView {
    /// The transport.
    pub medium: Medium,
    /// The id of the command.
    pub command_id: u8,
    /// Whether the command is sent without waiting for its response.
    pub no_response: bool,
    /// Whether a response that reports an error is taken like any other.
    pub ignore_error: bool,
}

impl View for Sending {
    type V = SendingView;

    closed spec fn view(&self) -> SendingView {
        SendingView {
            medium: self.medium,
            command_id: self.command_id,
            no_response: self.no_response,
            ignore_error: self.ignore_error,
        }
    }
}

/// A command that has been written and whose response is awaited.
#[derive(Debug)]
pub struct Awaiting {
    command_id: u8,
    ignore_error: bool,
    receiver: Receiver,
}

/// What an `Awaiting` is, as mathematics.
#[verifier::ext_equal]
pub struct AwaitingView {
    /// The id of the command.
    pub command_id: u8,
    /// Whether a response that reports an error is taken like any other.
    pub ignore_error: bool,
    /// The read session that is held for the response.
    pub receiver: ReceiverView,
}

impl View for Awaiting {
    type V = AwaitingView;

    closed spec fn view(&self) -> AwaitingView {
        AwaitingView {
            command_id: self.command_id,
            ignore_error: self.ignore_error,
            receiver: self.receiver@,
        }
    }
}

/// What is to be done next for a command.
#[derive(Debug)]
pub enum CommandStep {
    /// Write the bytes in full and flush, and hand the report to
    /// `Sending::written`.
    Write(Vec<u8>, Sending),
    /// Read at most `missing()` bytes and hand the report to
    /// `Awaiting::accept`.
    Read(Awaiting),
    /// The command is over: with the payload of its response, or with a
    /// failure.
    Done(Result<Vec<u8>, Error>),
}

/// What a `CommandStep` is, as mathematics.
#[verifier::ext_equal]
pub enum CommandStepView {
    Write(Seq<u8>, SendingView),
    Read(AwaitingView),
    Done(Result<Seq<u8>, Seq<char>>),
}

impl View for CommandStep {
    type V = CommandStepView;

    open spec fn view(&self) -> CommandStepView {
        match *self {
            CommandStep::Write(bytes, sending) => CommandStepView::Write(bytes@, sending@),
            CommandStep::Read(awaiting) => CommandStepView::Read(awaiting@),
            CommandStep::Done(Ok(data)) => CommandStepView::Done(Ok(data@)),
            CommandStep::Done(Err(error)) => CommandStepView::Done(Err(error@)),
        }
    }
}

/// A look for a packet on the transport.
#[derive(Debug)]
pub struct Polling {
    receiver: Receiver,
}

impl View for Polling {
    type V = ReceiverView;

    closed spec fn view(&self) -> ReceiverView {
        self.receiver@
    }
}

/// What is to be done next to get a packet.
#[derive(Debug)]
pub enum PacketStep {
    /// Read at most `missing()` bytes and hand the report to
    /// `Polling::accept`.
    Read(Polling),
    /// The oldest packet, none if none has arrived, or a failure.
    Done(Result<Option<Packet>, Error>),
}

/// What a `PacketStep` is, as mathematics.
#[verifier::ext_equal]
pub enum PacketStepView {
    Read(ReceiverView),
    Done(Result<Option<PacketView>, Seq<char>>),
}

impl View for PacketStep {
    type V = PacketStepView;

    open spec fn view(&self) -> PacketStepView {
        match *self {
            PacketStep::Read(polling) => PacketStepView::Read(polling@),
            PacketStep::Done(Ok(Some(packet))) => PacketStepView::Done(Ok(Some(packet@))),
            PacketStep::Done(Ok(None)) => PacketStepView::Done(Ok(None)),
            PacketStep::Done(Err(error)) => PacketStepView::Done(Err(error@)),
        }
    }
}

/// The bytes that carry a command on a transport.
pub open spec fn command_bytes(medium: Medium, command: CommandView) -> Seq<u8> {
    match medium {
        Medium::Serial => serial_command_bytes(command),
        Medium::Stream => stream_command_bytes(command),
    }
}

/// What follows the writing of a command: the failure of the write; no
/// payload at once, if no response is to be waited for; else a read
/// session that is held for the response.
pub open spec fn sending_written(sending: SendingView, report: Result<(), IoFailureView>)
    -> CommandStepView {
    match report {
        Err(failure) => CommandStepView::Done(Err(io_error_message(failure.description))),
        Ok(_) => if sending.no_response {
            CommandStepView::Done(Ok(Seq::empty()))
        } else {
            CommandStepView::Read(
                AwaitingView {
                    command_id: sending.command_id,
                    ignore_error: sending.ignore_error,
                    receiver: receiver_begin(sending.medium, DataType::Response),
                },
            )
        },
    }
}

/// The message for a read session that failed while a response was
/// awaited.
pub open spec fn response_error_message(message: Seq<char>) -> Seq<char> {
    "Command response error: "@ + message
}

/// The response that a read session held for one ends with: a session
/// that ends without one has failed, and the failure of a session is
/// marked as that of a response.
pub open spec fn response_of(outcome: Result<Option<ResponseView>, Seq<char>>) -> Result<
    ResponseView,
    Seq<char>,
> {
    match outcome {
        Ok(Some(response)) => Ok(response),
        Ok(None) => Err("No response was received"@),
        Err(message) => Err(response_error_message(message)),
    }
}

/// What a command ends with, given its response: the response must carry
/// the id of the command, and must not report an error unless errors are
/// ignored; then its payload is the result, as it is.
pub open spec fn command_result(
    command_id: u8,
    ignore_error: bool,
    response: Result<ResponseView, Seq<char>>,
) -> Result<Seq<u8>, Seq<char>> {
    match response {
        Err(message) => Err(message),
        Ok(response) => if response.id != command_id {
            Err("Command response ID didn't match"@)
        } else if !ignore_error && response.error {
            Err("Command response error"@)
        } else {
            Ok(response.data)
        },
    }
}

/// What follows the report of a read while a response is awaited, and the
/// queue after it: the read session goes on, or its end decides the
/// command.
pub open spec fn awaiting_accept(
    awaiting: AwaitingView,
    event: ReadEventView,
    queue: Seq<PacketView>,
) -> (CommandStepView, Seq<PacketView>) {
    let (progress, queue) = receiver_accept(awaiting.receiver, event, queue);
    match progress {
        ProgressView::Read(receiver) => (
            CommandStepView::Read(AwaitingView { receiver, ..awaiting }),
            queue,
        ),
        ProgressView::Done(outcome) => (
            CommandStepView::Done(
                command_result(awaiting.command_id, awaiting.ignore_error, response_of(outcome)),
            ),
            queue,
        ),
    }
}

/// The oldest packet of a queue, if there is one, and the queue without
/// it.
pub open spec fn take_oldest(queue: Seq<PacketView>) -> (Option<PacketView>, Seq<PacketView>) {
    if queue.len() == 0 {
        (None, queue)
    } else {
        (Some(queue[0]), queue.subrange(1, queue.len() as int))
    }
}

/// What follows the report of a read during a look for a packet, and the
/// queue after it. When the read session ends without a response, the
/// oldest packet of the queue is handed out, if there is one. A response
/// has no place outside a command: it is a failure.
pub open spec fn polling_accept(
    polling: ReceiverView,
    event: ReadEventView,
    queue: Seq<PacketView>,
) -> (PacketStepView, Seq<PacketView>) {
    let (progress, queue) = receiver_accept(polling, event, queue);
    match progress {
        ProgressView::Read(receiver) => (PacketStepView::Read(receiver), queue),
        ProgressView::Done(Err(message)) => (PacketStepView::Done(Err(message)), queue),
        ProgressView::Done(Ok(Some(_))) => (
            PacketStepView::Done(Err("Unexpected command response in data stream"@)),
            queue,
        ),
        ProgressView::Done(Ok(None)) => {
            let (packet, queue) = take_oldest(queue);
            (PacketStepView::Done(Ok(packet)), queue)
        },
    }
}

/// A link over the serial transport, with no packet waiting.
pub fn new_local(serial: Serial) -> (link: Link)
    ensures
        link@ == (LinkView { medium: Medium::Serial, packets: Seq::empty() }),
{
    let link = Link { backend: Backend::Serial(serial), packets: VecDeque::new() };
    assert(link@.packets =~= Seq::empty());
    link
}

/// A link over the stream transport, with no packet waiting.
pub fn new_remote(stream: TcpBackend) -> (link: Link)
    ensures
        link@ == (LinkView { medium: Medium::Stream, packets: Seq::empty() }),
{
    let link = Link { backend: Backend::Tcp(stream), packets: VecDeque::new() };
    assert(link@.packets =~= Seq::empty());
    link
}

impl Link {
    /// Begins a command whose response is awaited and must not report an
    /// error.
    pub fn execute_command(&self, command: &Command) -> (step: CommandStep)
        ensures
            step@ == CommandStepView::Write(
                command_bytes(self@.medium, command@),
                SendingView {
                    medium: self@.medium,
                    command_id: command.id,
                    no_response: false,
                    ignore_error: false,
                },
            ),
    {
        self.execute_command_raw(command, false, false)
    }

    /// Begins a command: its bytes are to be written first. With
    /// `no_response` the command is over once they are written; with
    /// `ignore_error` a response that reports an error gives its payload
    /// like any other.
    pub fn execute_command_raw(
        &self,
        command: &Command,
        no_response: bool,
        ignore_error: bool,
    ) -> (step: CommandStep)
        ensures
            step@ == CommandStepView::Write(
                command_bytes(self@.medium, command@),
                SendingView {
                    medium: self@.medium,
                    command_id: command.id,
                    no_response,
                    ignore_error,
                },
            ),
    {
        let medium: Medium = match self.backend {
            Backend::Serial(_) => Medium::Serial,
            Backend::Tcp(_) => Medium::Stream,
        };
        let bytes = self.backend.send_command(command);
        CommandStep::Write(
            bytes,
            Sending { medium, command_id: command.id, no_response, ignore_error },
        )
    }

    /// The response that a read session held for one has ended with.
    pub fn receive_response(outcome: Result<Option<Response>, Error>) -> (response: Result<
        Response,
        Error,
    >)
        ensures
            match response {
                Ok(received) => response_of(outcome_view(outcome)) == Ok::<
                    ResponseView,
                    Seq<char>,
                >(received@),
                Err(error) => response_of(outcome_view(outcome)) == Err::<ResponseView, Seq<char>>(
                    error@,
                ),
            },
    {
        match outcome {
            Ok(Some(response)) => Ok(response),
            Ok(None) => Err(Error::new("No response was received")),
            Err(error) => {
                let message = String::from_str("Command response error: ").concat(
                    error.to_string().as_str(),
                );
                Err(Error::new(message.as_str()))
            },
        }
    }

    /// What a command with the id `command_id` ends with, given its
    /// response.
    pub fn command_result(command_id: u8, ignore_error: bool, response: Result<Response, Error>)
        -> (result: Result<Vec<u8>, Error>)
        ensures
            match (result, response) {
                (Ok(data), Ok(received)) => command_result(
                    command_id,
                    ignore_error,
                    Ok(received@),
                ) == Ok::<Seq<u8>, Seq<char>>(data@),
                (Err(error), Ok(received)) => command_result(
                    command_id,
                    ignore_error,
                    Ok(received@),
                ) == Err::<Seq<u8>, Seq<char>>(error@),
                (Err(error), Err(failed)) => error@ == failed@,
                (Ok(_), Err(_)) => false,
            },
    {
        match response {
            Err(error) => Err(error),
            Ok(response) => {
                if command_id != response.id {
                    Err(Error::new("Command response ID didn't match"))
                } else if !ignore_error && response.error {
                    Err(Error::new("Command response error"))
                } else {
                    Ok(response.data)
                }
            },
        }
    }

    /// Hands out the oldest packet that waits, without a read. When none
    /// waits, the transport is looked at once, without waiting for data.
    pub fn receive_packet(&mut self) -> (step: PacketStep)
        ensures
            final(self)@.medium == old(self)@.medium,
            old(self)@.packets.len() == 0 ==> {
                &&& final(self)@ == old(self)@
                &&& step@ == PacketStepView::Read(
                    receiver_begin(old(self)@.medium, DataType::Packet),
                )
            },
            old(self)@.packets.len() > 0 ==> {
                &&& step@ == PacketStepView::Done(Ok(Some(old(self)@.packets[0])))
                &&& final(self)@.packets == old(self)@.packets.subrange(
                    1,
                    old(self)@.packets.len() as int,
                )
            },
    {
        if self.packets.len() == 0 {
            PacketStep::Read(
                Polling { receiver: self.backend.process_incoming_data(DataType::Packet) },
            )
        } else {
            let packet = self.packets.pop_front();
            assert(queue_view(self.packets@) =~= queue_view(old(self).packets@).subrange(
                1,
                old(self).packets@.len() as int,
            ));
            PacketStep::Done(Ok(packet))
        }
    }
}

impl Sending {
    /// Takes the report of the write, and says what follows.
    pub fn written(self, report: Result<(), IoFailure>) -> (step: CommandStep)
        ensures
            step@ == sending_written(self@, report_view(report)),
    {
        match report {
            Err(failure) => CommandStep::Done(Err(Error::io(&failure))),
            Ok(_) => {
                if self.no_response {
                    CommandStep::Done(Ok(Vec::new()))
                } else {
                    CommandStep::Read(
                        Awaiting {
                            command_id: self.command_id,
                            ignore_error: self.ignore_error,
                            receiver: Receiver::begin(self.medium, DataType::Response),
                        },
                    )
                }
            },
        }
    }
}

impl Awaiting {
    /// The most that the next read may give.
    pub fn missing(&self) -> (length: usize)
        ensures
            length == self@.receiver.reader.wanted - self@.receiver.reader.buffer.len(),
            length > 0,
    {
        self.receiver.missing()
    }

    /// Whether the next read is the first of its field, so that the time
    /// reported with it is counted from there.
    pub fn restarts_clock(&self) -> (restart: bool)
        ensures
            restart == !self@.receiver.reader.started,
    {
        self.receiver.restarts_clock()
    }

    /// Takes the report of the read that was asked for. The packets that
    /// it completes join the queue of `link`; a response ends the command.
    pub fn accept(self, link: &mut Link, event: ReadEvent) -> (step: CommandStep)
        requires
            event@.fits(self@.receiver.reader.wanted - self@.receiver.reader.buffer.len()),
        ensures
            final(link)@.medium == old(link)@.medium,
            (step@, final(link)@.packets) == awaiting_accept(self@, event@, old(link)@.packets),
    {
        let Awaiting { command_id, ignore_error, receiver } = self;
        match receiver.accept(event, &mut link.packets) {
            Progress::Read(receiver) => CommandStep::Read(
                Awaiting { command_id, ignore_error, receiver },
            ),
            Progress::Done(outcome) => CommandStep::Done(
                Link::command_result(command_id, ignore_error, Link::receive_response(outcome)),
            ),
        }
    }
}

impl Polling {
    /// The most that the next read may give.
    pub fn missing(&self) -> (length: usize)
        ensures
            length == self@.reader.wanted - self@.reader.buffer.len(),
            length > 0,
    {
        self.receiver.missing()
    }

    /// Whether the next read is the first of its field, so that the time
    /// reported with it is counted from there.
    pub fn restarts_clock(&self) -> (restart: bool)
        ensures
            restart == !self@.reader.started,
    {
        self.receiver.restarts_clock()
    }

    /// Takes the report of the read that was asked for. A packet that it
    /// completes joins the queue of `link`, and the oldest packet of the
    /// queue is handed out when the read session ends.
    pub fn accept(self, link: &mut Link, event: ReadEvent) -> (step: PacketStep)
        requires
            event@.fits(self@.reader.wanted - self@.reader.buffer.len()),
        ensures
            final(link)@.medium == old(link)@.medium,
            (step@, final(link)@.packets) == polling_accept(self@, event@, old(link)@.packets),
    {
        let Polling { receiver } = self;
        match receiver.accept(event, &mut link.packets) {
            Progress::Read(receiver) => PacketStep::Read(Polling { receiver }),
            Progress::Done(Err(error)) => PacketStep::Done(Err(error)),
            Progress::Done(Ok(Some(_))) => PacketStep::Done(
                Err(Error::new("Unexpected command response in data stream")),
            ),
            Progress::Done(Ok(None)) => {
                let ghost arrived = link.packets@;
                let packet = link.packets.pop_front();
                assert(queue_view(link.packets@) =~= take_oldest(queue_view(arrived)).1);
                PacketStep::Done(Ok(packet))
            },
        }
    }
}

/// A command with the id `command_id` whose bytes have been written and
/// whose response is awaited.
pub open spec fn awaiting_begin(medium: Medium, command_id: u8, ignore_error: bool)
    -> AwaitingView {
    AwaitingView {
        command_id,
        ignore_error,
        receiver: receiver_begin(medium, DataType::Response),
    }
}

/// The command after the reports `events` of the reads that it asked
/// for, one after the other, and the queue after it. The command stops
/// where it ends.
pub open spec fn await_events(
    awaiting: AwaitingView,
    events: Seq<ReadEventView>,
    queue: Seq<PacketView>,
) -> (CommandStepView, Seq<PacketView>)
    decreases events.len(),
{
    if events.len() == 0 {
        (CommandStepView::Read(awaiting), queue)
    } else {
        let (step, queue) = awaiting_accept(awaiting, events[0], queue);
        match step {
            CommandStepView::Read(next) => await_events(next, events.skip(1), queue),
            _ => (step, queue),
        }
    }
}

/// What the state of its read session means for a command.
pub open spec fn command_end(awaiting: AwaitingView, step: (ProgressView, Seq<PacketView>)) -> (
    CommandStepView,
    Seq<PacketView>,
) {
    match step.0 {
        ProgressView::Read(receiver) => (
            CommandStepView::Read(AwaitingView { receiver, ..awaiting }),
            step.1,
        ),
        ProgressView::Done(outcome) => (
            CommandStepView::Done(
                command_result(awaiting.command_id, awaiting.ignore_error, response_of(outcome)),
            ),
            step.1,
        ),
    }
}

/// Whether `events` are the reports of a transport that stands, is in
/// time, and hands over `bytes`, cut as it likes, to a command that
/// awaits its response.
pub open spec fn hands_over(
    awaiting: AwaitingView,
    events: Seq<ReadEventView>,
    bytes: Seq<u8>,
    queue: Seq<PacketView>,
) -> bool {
    &&& orderly(events)
    &&& feed_fits(awaiting.receiver, events, queue)
    &&& bytes_of_all(events) == bytes
}

/// A command takes the reports of the transport as its read session
/// does, and ends when the session ends.
pub proof fn lemma_await_events(
    awaiting: AwaitingView,
    events: Seq<ReadEventView>,
    queue: Seq<PacketView>,
)
    ensures
        await_events(awaiting, events, queue) == command_end(
            awaiting,
            feed(awaiting.receiver, events, queue),
        ),
    decreases events.len(),
{
    if events.len() == 0 {
        assert(AwaitingView { receiver: awaiting.receiver, ..awaiting } =~= awaiting);
    } else {
        let (progress, after) = receiver_accept(awaiting.receiver, events[0], queue);
        match progress {
            ProgressView::Read(receiver) => {
                let next = AwaitingView { receiver, ..awaiting };
                lemma_await_events(next, events.skip(1), after);
                assert(command_end(next, feed(receiver, events.skip(1), after)) =~= command_end(
                    awaiting,
                    feed(receiver, events.skip(1), after),
                ));
            },
            ProgressView::Done(_) => {},
        }
    }
}

/// A response whose id is not that of the command that is awaiting it
/// ends the command with the failure of the mismatch, whatever else the
/// response holds and whether or not errors are ignored: its payload is
/// never the result.
pub proof fn lemma_response_id_must_match(
    medium: Medium,
    command_id: u8,
    ignore_error: bool,
    response: ResponseView,
    events: Seq<ReadEventView>,
    queue: Seq<PacketView>,
)
    requires
        response.id != command_id,
        response.data.len() <= u32::MAX,
        hands_over(
            awaiting_begin(medium, command_id, ignore_error),
            events,
            response_bytes(medium, response),
            queue,
        ),
    ensures
        await_events(awaiting_begin(medium, command_id, ignore_error), events, queue) == (
            CommandStepView::Done(Err("Command response ID didn't match"@)),
            queue,
        ),
{
    let awaiting = awaiting_begin(medium, command_id, ignore_error);
    let bytes = response_bytes(medium, response);
    lemma_receive_response(medium, DataType::Response, response, Seq::empty(), queue);
    assert(bytes + Seq::<u8>::empty() =~= bytes);
    lemma_feed(awaiting.receiver, events, queue);
    lemma_await_events(awaiting, events, queue);
}

/// Packets that arrive before the response of a command join the queue
/// at the back, in the order of their arrival, and the command ends with
/// what its response decides.
pub proof fn lemma_packets_before_response(
    medium: Medium,
    command_id: u8,
    ignore_error: bool,
    packets: Seq<PacketView>,
    response: ResponseView,
    events: Seq<ReadEventView>,
    queue: Seq<PacketView>,
)
    requires
        forall|i: int| 0 <= i < packets.len() ==> (#[trigger] packets[i]).data.len() <= u32::MAX,
        response.data.len() <= u32::MAX,
        hands_over(
            awaiting_begin(medium, command_id, ignore_error),
            events,
            packets_bytes(medium, packets) + response_bytes(medium, response),
            queue,
        ),
    ensures
        await_events(awaiting_begin(medium, command_id, ignore_error), events, queue) == (
            CommandStepView::Done(command_result(command_id, ignore_error, Ok(response))),
            queue + packets,
        ),
{
    let awaiting = awaiting_begin(medium, command_id, ignore_error);
    let tail = response_bytes(medium, response);
    lemma_receive_packets(medium, DataType::Response, packets, tail, queue);
    lemma_receive_response(medium, DataType::Response, response, Seq::empty(), queue + packets);
    assert(tail + Seq::<u8>::empty() =~= tail);
    lemma_feed(awaiting.receiver, events, queue);
    lemma_await_events(awaiting, events, queue);
}

/// Keep-alive frames before the response of a command have no effect:
/// the command ends with what its response decides, and the queue is as
/// it was.
pub proof fn lemma_keep_alives_before_response(
    command_id: u8,
    ignore_error: bool,
    count: nat,
    response: ResponseView,
    events: Seq<ReadEventView>,
    queue: Seq<PacketView>,
)
    requires
        response.data.len() <= u32::MAX,
        hands_over(
            awaiting_begin(Medium::Stream, command_id, ignore_error),
            events,
            keep_alive_bytes(count) + response_bytes(Medium::Stream, response),
            queue,
        ),
    ensures
        await_events(awaiting_begin(Medium::Stream, command_id, ignore_error), events, queue) == (
            CommandStepView::Done(command_result(command_id, ignore_error, Ok(response))),
            queue,
        ),
{
    let awaiting = awaiting_begin(Medium::Stream, command_id, ignore_error);
    let tail = response_bytes(Medium::Stream, response);
    lemma_receive_keep_alives(DataType::Response, count, tail, queue);
    lemma_receive_response(Medium::Stream, DataType::Response, response, Seq::empty(), queue);
    assert(tail + Seq::<u8>::empty() =~= tail);
    lemma_feed(awaiting.receiver, events, queue);
    lemma_await_events(awaiting, events, queue);
}

/// On the stream transport a response whose error flag is any byte but
/// zero reports an error: the command that awaits it ends with what a
/// response with that error decides, and the queue is as it was.
pub proof fn lemma_any_error_flag(
    command_id: u8,
    ignore_error: bool,
    id: u8,
    flag: u8,
    data: Seq<u8>,
    events: Seq<ReadEventView>,
    queue: Seq<PacketView>,
)
    requires
        data.len() <= u32::MAX,
        hands_over(
            awaiting_begin(Medium::Stream, command_id, ignore_error),
            events,
            stream_response_frame(id, flag, data),
            queue,
        ),
    ensures
        await_events(awaiting_begin(Medium::Stream, command_id, ignore_error), events, queue) == (
            CommandStepView::Done(
                command_result(
                    command_id,
                    ignore_error,
                    Ok(ResponseView { id, data, error: flag != 0 }),
                ),
            ),
            queue,
        ),
{
    let awaiting = awaiting_begin(Medium::Stream, command_id, ignore_error);
    let bytes = stream_response_frame(id, flag, data);
    lemma_receive_flagged_response(DataType::Response, id, flag, data, Seq::empty(), queue);
    assert(bytes + Seq::<u8>::empty() =~= bytes);
    lemma_feed(awaiting.receiver, events, queue);
    lemma_await_events(awaiting, events, queue);
}

/// A look for a packet, with none waiting, on a transport that has
/// nothing ready ends at once with no packet: it does not wait.
pub proof fn lemma_no_packet_when_nothing_arrives(medium: Medium, event: ReadEventView)
    requires
        event.outcome matches ReadOutcomeView::Failed(failure) && failure.kind.transient(),
    ensures
        polling_accept(receiver_begin(medium, DataType::Packet), event, Seq::empty()) == (
            PacketStepView::Done(Ok(None)),
            Seq::<PacketView>::empty(),
        ),
{
}

} // verus!
