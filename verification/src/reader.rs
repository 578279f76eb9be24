//! Reading one field of a frame: a declared number of bytes, gathered from
//! as many reads as the transport needs, within a time budget.
//!
//! The reader performs no input itself. It says which read comes next, its
//! driver performs that read and hands back what happened.
use vstd::prelude::*;
use crate::error::{io_error_message, Error, IoFailure, IoFailureView};

verus! {

/// The longest that the reading of one field may take, in nanoseconds: ten
/// seconds, counted from the first read of that field.
pub const READ_BUDGET_NANOS: u128 = 10_000_000_000;

/// The transport that a field is read from; it decides the wording of the
/// failures.
#[derive(Clone, Copy, Debug, PartialEq, Eq)]
pub enum Medium {
    Serial,
    Stream,
}

impl Medium {
    /// The message for a field that did not arrive within the budget.
    pub open spec fn timeout_message(self) -> Seq<char> {
        match self {
            Medium::Serial => "Serial read timeout"@,
            Medium::Stream => "Stream read timeout"@,
        }
    }

    /// The message for a transport that ended in the middle of a field.
    pub open spec fn end_message(self) -> Seq<char> {
        match self {
            Medium::Serial => "Unexpected end of serial data"@,
            Medium::Stream => "Unexpected end of stream data"@,
        }
    }

    /// The failure of a field that did not arrive within the budget.
    pub(crate) fn timeout_error(self) -> (error: Error)
        ensures
            error@ == self.timeout_message(),
    {
        match self {
            Medium::Serial => Error::new("Serial read timeout"),
            Medium::Stream => Error::new("Stream read timeout"),
        }
    }

    /// The failure of a transport that ended in the middle of a field.
    pub(crate) fn end_error(self) -> (error: Error)
        ensures
            error@ == self.end_message(),
    {
        match self {
            Medium::Serial => Error::new("Unexpected end of serial data"),
            Medium::Stream => Error::new("Unexpected end of stream data"),
        }
    }
}

/// What one read on the transport gave: some bytes (none at all when the
/// transport has ended), or a failure.
#[derive(Debug)]
pub enum ReadOutcome {
    Data(Vec<u8>),
    Failed(IoFailure),
}

/// What a `ReadOutcome` is, as mathematics.
pub enum ReadOutcomeView {
    Data(Seq<u8>),
    Failed(IoFailureView),
}

impl View for ReadOutcome {
    type V = ReadOutcomeView;

    open spec fn view(&self) -> ReadOutcomeView {
        match *self {
            ReadOutcome::Data(bytes) => ReadOutcomeView::Data(bytes@),
            ReadOutcome::Failed(failure) => ReadOutcomeView::Failed(failure@),
        }
    }
}

/// The report of one read: its outcome, and the time that has passed since
/// the first read of the field when the read came back.
#[derive(Debug)]
pub struct ReadEvent {
    pub outcome: ReadOutcome,
    pub elapsed_nanos: u128,
}

/// What a `ReadEvent` is, as mathematics.
pub struct ReadEventView {
    pub outcome: ReadOutcomeView,
    pub elapsed_nanos: u128,
}

impl View for ReadEvent {
    type V = ReadEventView;

    open spec fn view(&self) -> ReadEventView {
        ReadEventView { outcome: self.outcome@, elapsed_nanos: self.elapsed_nanos }
    }
}

impl ReadEventView {
    /// Whether the event can answer a read of at most `length` bytes: a
    /// read never gives more than was asked for.
    pub open spec fn fits(self, length: int) -> bool {
        self.outcome matches ReadOutcomeView::Data(bytes) ==> bytes.len() <= length
    }
}

/// A field in the course of being read.
#[derive(Debug)]
pub struct FieldReader {
    medium: Medium,
    wanted: usize,
    blocking: bool,
    started: bool,
    buffer: Vec<u8>,
}

/// What a `FieldReader` is, as mathematics.
#[verifier::ext_equal]
pub struct FieldReaderView {
    /// The transport that is read.
    pub medium: Medium,
    /// The length of the field.
    pub wanted: nat,
    /// Whether the reader waits for the field even when nothing of it has
    /// come yet.
    pub blocking: bool,
    /// Whether a read of this field has been answered.
    pub started: bool,
    /// The bytes of the field that have come.
    pub buffer: Seq<u8>,
}

/// What is to be done next for a field.
#[derive(Debug)]
pub enum FieldStep {
    /// Read at most `missing()` bytes and hand the report to `accept`.
    Read(FieldReader),
    /// The field is whole.
    Complete(Vec<u8>),
    /// Nothing of the field has come, and the reader does not wait.
    Nothing,
    /// The field cannot be had.
    Failed(Error),
}

/// What a `FieldStep` is, as mathematics.
#[verifier::ext_equal]
pub enum FieldStepView {
    Read(FieldReaderView),
    Complete(Seq<u8>),
    Nothing,
    Failed(Seq<char>),
}

impl View for FieldStep {
    type V = FieldStepView;

    open spec fn view(&self) -> FieldStepView {
        match *self {
            FieldStep::Read(reader) => FieldStepView::Read(reader@),
            FieldStep::Complete(bytes) => FieldStepView::Complete(bytes@),
            FieldStep::Nothing => FieldStepView::Nothing,
            FieldStep::Failed(error) => FieldStepView::Failed(error@),
        }
    }
}

/// The reader of a field of `wanted` bytes of which nothing has been read.
pub open spec fn fresh_reader(medium: Medium, wanted: nat, blocking: bool) -> FieldReaderView {
    FieldReaderView { medium, wanted, blocking, started: false, buffer: Seq::empty() }
}

/// The step after an answered read that left the field unfinished: the
/// budget is looked at before the next read is asked for.
pub open spec fn field_retry(reader: FieldReaderView, elapsed_nanos: u128) -> FieldStepView {
    if elapsed_nanos > READ_BUDGET_NANOS {
        FieldStepView::Failed(reader.medium.timeout_message())
    } else {
        FieldStepView::Read(FieldReaderView { started: true, ..reader })
    }
}

/// The step that follows the report of a read.
///
/// - No bytes: the transport has ended, which is a failure.
/// - Bytes: they are added to the field. The field is whole when it has
///   its length; else another read follows, if the budget allows.
/// - A transient failure: when the reader does not wait and nothing of the
///   field has come, there is nothing to read now; else another read
///   follows, if the budget allows.
/// - Any other failure is that of the field.
pub open spec fn field_accept(reader: FieldReaderView, event: ReadEventView) -> FieldStepView {
    match event.outcome {
        ReadOutcomeView::Data(bytes) => {
            if bytes.len() == 0 {
                FieldStepView::Failed(reader.medium.end_message())
            } else if reader.buffer.len() + bytes.len() >= reader.wanted {
                FieldStepView::Complete(reader.buffer + bytes)
            } else {
                field_retry(
                    FieldReaderView { buffer: reader.buffer + bytes, ..reader },
                    event.elapsed_nanos,
                )
            }
        },
        ReadOutcomeView::Failed(failure) => {
            if failure.kind.transient() {
                if !reader.blocking && reader.buffer.len() == 0 {
                    FieldStepView::Nothing
                } else {
                    field_retry(reader, event.elapsed_nanos)
                }
            } else {
                FieldStepView::Failed(io_error_message(failure.description))
            }
        },
    }
}

impl View for FieldReader {
    type V = FieldReaderView;

    closed spec fn view(&self) -> FieldReaderView {
        FieldReaderView {
            medium: self.medium,
            wanted: self.wanted as nat,
            blocking: self.blocking,
            started: self.started,
            buffer: self.buffer@,
        }
    }
}

impl FieldReader {
    #[verifier::type_invariant]
    spec fn unfinished(self) -> bool {
        self.buffer@.len() < self.wanted
    }

    /// The reader of a field of `wanted` bytes, at least one, of which
    /// nothing has been read. A `blocking` reader waits for the field; one
    /// that is not gives up when the transport has nothing of it yet.
    pub fn open(medium: Medium, wanted: usize, blocking: bool) -> (reader: FieldReader)
        requires
            wanted > 0,
        ensures
            reader@ == fresh_reader(medium, wanted as nat, blocking),
    {
        FieldReader { medium, wanted, blocking, started: false, buffer: Vec::new() }
    }

    /// The number of bytes of the field that have not come yet: the most
    /// that the next read may give.
    pub fn missing(&self) -> (length: usize)
        ensures
            length == self@.wanted - self@.buffer.len(),
            length > 0,
    {
        proof {
            use_type_invariant(self);
        }
        self.wanted - self.buffer.len()
    }

    /// Whether the next read is the first of the field, so that the time
    /// reported with it is counted from there.
    pub fn restarts_clock(&self) -> (restart: bool)
        ensures
            restart == !self@.started,
    {
        !self.started
    }

    /// Takes the report of the read that was asked for, and says what
    /// follows.
    pub fn accept(self, event: ReadEvent) -> (step: FieldStep)
        requires
            event@.fits(self@.wanted - self@.buffer.len()),
        ensures
            step@ == field_accept(self@, event@),
    {
        proof {
            use_type_invariant(&self);
        }
        let FieldReader { medium, wanted, blocking, started: _, buffer } = self;
        let ReadEvent { outcome, elapsed_nanos } = event;
        let mut buffer = buffer;
        match outcome {
            ReadOutcome::Data(bytes) => {
                let mut bytes = bytes;
                if bytes.len() == 0 {
                    FieldStep::Failed(medium.end_error())
                } else {
                    buffer.append(&mut bytes);
                    if buffer.len() >= wanted {
                        FieldStep::Complete(buffer)
                    } else if elapsed_nanos > READ_BUDGET_NANOS {
                        FieldStep::Failed(medium.timeout_error())
                    } else {
                        FieldStep::Read(
                            FieldReader { medium, wanted, blocking, started: true, buffer },
                        )
                    }
                }
            },
            ReadOutcome::Failed(failure) => {
                if failure.kind.is_transient() {
                    if !blocking && buffer.len() == 0 {
                        FieldStep::Nothing
                    } else if elapsed_nanos > READ_BUDGET_NANOS {
                        FieldStep::Failed(medium.timeout_error())
                    } else {
                        FieldStep::Read(
                            FieldReader { medium, wanted, blocking, started: true, buffer },
                        )
                    }
                } else {
                    FieldStep::Failed(Error::io(&failure))
                }
            },
        }
    }
}

} // verus!
