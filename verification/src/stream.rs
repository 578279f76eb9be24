//! The stream transport: how the connection is made, and the layout of
//! its frames. There is no handshake: a connection that stands is enough.
use vstd::prelude::*;
use vstd::string::StringExecFns;
use crate::error::{io_error_message, report_view, Error, IoFailure, IoFailureView};
use crate::frame::{put_be32, put_bytes, stream_command_bytes, Command, DataType};
use crate::reader::Medium;
use crate::receive::{receiver_begin, Receiver};

verus! {

/// How long a write to the stream may take, in milliseconds.
pub const WRITE_TIMEOUT_MILLIS: u64 = 10_000;

/// How long a read on the stream waits for data, in milliseconds. It is
/// short, so that a read session that does not wait can give up at once.
pub const READ_TIMEOUT_MILLIS: u64 = 10;

/// The timeouts that a connection is given.
#[derive(Clone, Copy, Debug, PartialEq, Eq)]
pub struct StreamSettings {
    pub write_timeout_millis: u64,
    pub read_timeout_millis: u64,
}

/// The stream transport of a connection that stands.
#[derive(Debug)]
pub struct TcpBackend {
    settings: StreamSettings,
}

/// A connection that is about to be made.
#[derive(Debug)]
pub struct Connecting {
    address: String,
}

/// A connection that stands and is about to be given its timeouts.
#[derive(Debug)]
pub struct Configuring {
    settings: StreamSettings,
}

/// What is to be done next to bring up the stream transport.
#[derive(Debug)]
pub enum TcpSetup {
    /// Connect to the address, and hand the report to
    /// `Connecting::connected`.
    Connect(Connecting),
    /// Give the connection its timeouts and take its two ends, and hand
    /// the report to `Configuring::configured`.
    Configure(Configuring),
    /// The transport is up, or cannot be brought up.
    Done(Result<TcpBackend, Error>),
}

/// What a `TcpSetup` is, as mathematics.
#[verifier::ext_equal]
pub enum TcpSetupView {
    Connect { address: Seq<char> },
    Configure { settings: StreamSettings },
    Done(Result<(), Seq<char>>),
}

impl View for Connecting {
    type V = Seq<char>;

    closed spec fn view(&self) -> Seq<char> {
        self.address@
    }
}

impl View for Configuring {
    type V = StreamSettings;

    closed spec fn view(&self) -> StreamSettings {
        self.settings
    }
}

impl View for TcpSetup {
    type V = TcpSetupView;

    open spec fn view(&self) -> TcpSetupView {
        match *self {
            TcpSetup::Connect(connecting) => TcpSetupView::Connect { address: connecting@ },
            TcpSetup::Configure(configuring) => TcpSetupView::Configure { settings: configuring@ },
            TcpSetup::Done(Ok(_)) => TcpSetupView::Done(Ok(())),
            TcpSetup::Done(Err(error)) => TcpSetupView::Done(Err(error@)),
        }
    }
}

/// The timeouts that the connection to the device is given.
pub open spec fn stream_settings() -> StreamSettings {
    StreamSettings {
        write_timeout_millis: WRITE_TIMEOUT_MILLIS,
        read_timeout_millis: READ_TIMEOUT_MILLIS,
    }
}

/// The message for a connection to `address` that could not be made, for
/// the reason that `description` gives.
pub open spec fn connect_error_message(address: Seq<char>, description: Seq<char>) -> Seq<char> {
    "Couldn't connect to ["@ + address + "]: "@ + description
}

/// What follows the attempt to connect to `address`: the timeouts, or
/// the failure that names the address.
pub open spec fn connecting_connected(address: Seq<char>, report: Result<(), IoFailureView>)
    -> TcpSetupView {
    match report {
        Ok(_) => TcpSetupView::Configure { settings: stream_settings() },
        Err(failure) => TcpSetupView::Done(
            Err(connect_error_message(address, failure.description)),
        ),
    }
}

/// What follows the attempt to configure the connection: the transport
/// is up, or the failure of the connection.
pub open spec fn configuring_configured(report: Result<(), IoFailureView>) -> TcpSetupView {
    match report {
        Ok(_) => TcpSetupView::Done(Ok(())),
        Err(failure) => TcpSetupView::Done(Err(io_error_message(failure.description))),
    }
}

impl Connecting {
    /// The address that is to be connected to.
    pub fn address(&self) -> (address: &str)
        ensures
            address@ == self@,
    {
        self.address.as_str()
    }

    /// Takes the report of the attempt to connect, and says what follows.
    pub fn connected(self, report: Result<(), IoFailure>) -> (setup: TcpSetup)
        ensures
            setup@ == connecting_connected(self@, report_view(report)),
    {
        match report {
            Ok(_) => TcpSetup::Configure(
                Configuring {
                    settings: StreamSettings {
                        write_timeout_millis: WRITE_TIMEOUT_MILLIS,
                        read_timeout_millis: READ_TIMEOUT_MILLIS,
                    },
                },
            ),
            Err(failure) => {
                let message = String::from_str("Couldn't connect to [").concat(
                    self.address.as_str(),
                ).concat("]: ").concat(failure.description.as_str());
                TcpSetup::Done(Err(Error::new(message.as_str())))
            },
        }
    }
}

impl Configuring {
    /// The timeouts that the connection is to be given.
    pub fn settings(&self) -> (settings: StreamSettings)
        ensures
            settings == self@,
    {
        self.settings
    }

    /// Takes the report of the attempt to configure the connection, and
    /// says what follows.
    pub fn configured(self, report: Result<(), IoFailure>) -> (setup: TcpSetup)
        ensures
            setup@ == configuring_configured(report_view(report)),
    {
        match report {
            Ok(_) => TcpSetup::Done(Ok(TcpBackend { settings: self.settings })),
            Err(failure) => TcpSetup::Done(Err(Error::io(&failure))),
        }
    }
}

/// Begins to bring up the stream transport to `address`: the connection
/// is made first, then it is given its timeouts.
pub fn new_tcp_backend(address: &str) -> (setup: TcpSetup)
    ensures
        setup@ == (TcpSetupView::Connect { address: address@ }),
{
    TcpSetup::Connect(Connecting { address: String::from_str(address) })
}

impl TcpBackend {
    /// The bytes that carry `command` to the device. They are to be
    /// written in full and flushed.
    pub fn send_command(&self, command: &Command) -> (bytes: Vec<u8>)
        ensures
            bytes@ == stream_command_bytes(command@),
    {
        let length: u64 = command.data.len() as u64 % 0x1_0000_0000;
        let tag: u32 = DataType::Command.into();
        let mut bytes: Vec<u8> = Vec::new();
        put_be32(&mut bytes, tag);
        bytes.push(command.id);
        put_be32(&mut bytes, command.args[0]);
        put_be32(&mut bytes, command.args[1]);
        put_be32(&mut bytes, length as u32);
        put_bytes(&mut bytes, command.data.as_slice());
        assert(bytes@ =~= stream_command_bytes(command@));
        bytes
    }

    /// Opens a read session held for a frame of the kind `data_type`.
    pub fn process_incoming_data(&self, data_type: DataType) -> (receiver: Receiver)
        ensures
            receiver@ == receiver_begin(Medium::Stream, data_type),
    {
        Receiver::begin(Medium::Stream, data_type)
    }
}

} // verus!
