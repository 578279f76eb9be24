//! The failure value carried by every fallible operation of the link.
use vstd::prelude::*;
use vstd::string::StringExecFns;

verus! {

/// The kinds of failure that the operating system reports for a read, a
/// write or a connection attempt.
#[derive(Clone, Copy, Debug, PartialEq, Eq)]
pub enum IoKind {
    NotFound,
    PermissionDenied,
    ConnectionRefused,
    ConnectionReset,
    ConnectionAborted,
    NotConnected,
    AddrInUse,
    AddrNotAvailable,
    BrokenPipe,
    AlreadyExists,
    WouldBlock,
    InvalidInput,
    InvalidData,
    TimedOut,
    WriteZero,
    Interrupted,
    Unsupported,
    UnexpectedEof,
    OutOfMemory,
    Other,
}

impl IoKind {
    /// Whether a failure of this kind only says that nothing was ready yet:
    /// an interrupted call, an elapsed timeout, or a call that would block.
    /// Every other kind is a real loss of the connection.
    pub open spec fn transient(self) -> bool {
        self is Interrupted || self is TimedOut || self is WouldBlock
    }

    /// Computes `transient`.
    pub fn is_transient(self) -> (transient: bool)
        ensures
            transient == self.transient(),
    {
        match self {
            IoKind::Interrupted | IoKind::TimedOut | IoKind::WouldBlock => true,
            _ => false,
        }
    }
}

/// A failed input or output operation: its kind and the system's words.
#[derive(Debug)]
pub struct IoFailure {
    pub kind: IoKind,
    pub description: String,
}

/// What an `IoFailure` is, as mathematics.
pub struct IoFailureView {
    pub kind: IoKind,
    pub description: Seq<char>,
}

impl View for IoFailure {
    type V = IoFailureView;

    open spec fn view(&self) -> IoFailureView {
        IoFailureView { kind: self.kind, description: self.description@ }
    }
}

/// What the report of an input or output operation is, as mathematics.
pub open spec fn report_view<T>(report: Result<T, IoFailure>) -> Result<T, IoFailureView> {
    match report {
        Ok(value) => Ok(value),
        Err(failure) => Err(failure@),
    }
}

/// The message of the failure that stands for a failed input or output
/// operation described by `description`.
pub open spec fn io_error_message(description: Seq<char>) -> Seq<char> {
    "IO error: "@ + description
}

/// The message of the failure that stands for a failed enumeration of the
/// serial ports described by `description`.
pub open spec fn serial_port_error_message(description: Seq<char>) -> Seq<char> {
    "SerialPort error: "@ + description
}

/// A failure, described by a human-readable message.
#[derive(Debug, Clone, PartialEq, Eq)]
pub struct Error {
    description: String,
}

impl View for Error {
    type V = Seq<char>;

    closed spec fn view(&self) -> Seq<char> {
        self.description@
    }
}

impl Error {
    /// Builds a failure that carries `description` unchanged.
    pub fn new(description: &str) -> (error: Error)
        ensures
            error@ == description@,
    {
        Error { description: description.to_string() }
    }

    /// The failure that stands for a failed input or output operation.
    pub fn io(failure: &IoFailure) -> (error: Error)
        ensures
            error@ == io_error_message(failure@.description),
    {
        Error { description: String::from_str("IO error: ").concat(failure.description.as_str()) }
    }

    /// The failure that stands for a failed enumeration of the serial
    /// ports, which the system described by `description`.
    pub fn serial_port(description: &str) -> (error: Error)
        ensures
            error@ == serial_port_error_message(description@),
    {
        Error { description: String::from_str("SerialPort error: ").concat(description) }
    }

    /// The message that this failure carries.
    pub fn to_string(&self) -> (message: String)
        ensures
            message@ == self@,
    {
        self.description.clone()
    }
}

} // verus!
