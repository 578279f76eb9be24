//! The serial transport: how the port is opened, the reset handshake that
//! makes the device listen, and the layout of its frames.
use vstd::prelude::*;
use vstd::string::StringExecFns;
use crate::error::{io_error_message, report_view, Error, IoFailure, IoFailureView};
use crate::frame::{put_be32, put_bytes, serial_command_bytes, Command, DataType};
use crate::reader::Medium;
use crate::receive::{receiver_begin, Receiver};

verus! {

/// The speed at which the port is opened.
pub const BAUD_RATE: u32 = 115_200;

/// How long a write to the port may take, in milliseconds.
pub const WRITE_TIMEOUT_MILLIS: u64 = 10_000;

/// How long a read on the port waits for data, in milliseconds. It is
/// short, so that a read session that does not wait can give up at once.
pub const READ_TIMEOUT_MILLIS: u64 = 10;

/// The pause before each look at the status line, in milliseconds.
pub const RESET_PAUSE_MILLIS: u64 = 10;

/// How many more times the status line is looked at after the first.
pub const RESET_RETRIES: u32 = 100;

/// How a port is to be opened.
#[derive(Clone, Copy, Debug, PartialEq, Eq)]
pub struct PortSettings {
    pub baud_rate: u32,
    pub write_timeout_millis: u64,
    pub read_timeout_millis: u64,
}

/// The two halves of the reset handshake: the control line is raised and
/// the status line must follow, then it is lowered and the status line
/// must follow again.
#[derive(Clone, Copy, Debug, PartialEq, Eq)]
pub enum Phase {
    On,
    Off,
}

impl Phase {
    /// The message for a status line that never followed the control line.
    pub open spec fn message(self) -> Seq<char> {
        match self {
            Phase::On => "Couldn't reset SC64 device (on)"@,
            Phase::Off => "Couldn't reset SC64 device (off)"@,
        }
    }
}

/// One round of the handshake, in the order in which it is performed: set
/// the control line if a level is given, discard what the port has
/// buffered if asked, pause, then read the status line.
#[derive(Clone, Copy, Debug, PartialEq, Eq)]
pub struct Round {
    pub set_control_line: Option<bool>,
    pub discard_buffers: bool,
    pub pause_millis: u64,
}

/// A handshake in its course.
#[derive(Debug)]
pub struct Reset {
    phase: Phase,
    attempt: u32,
}

/// What a `Reset` is, as mathematics.
pub struct ResetView {
    /// The half that the handshake is in.
    pub phase: Phase,
    /// The number of looks at the status line that this half has had
    /// without success.
    pub attempt: u32,
}

impl View for Reset {
    type V = ResetView;

    closed spec fn view(&self) -> ResetView {
        ResetView { phase: self.phase, attempt: self.attempt }
    }
}

/// The serial transport of a device that has acknowledged the handshake.
#[derive(Debug)]
pub struct Serial {
    settings: PortSettings,
}

/// A port that is about to be opened.
#[derive(Debug)]
pub struct Opening {
    port: String,
    settings: PortSettings,
}

impl View for Opening {
    type V = (Seq<char>, PortSettings);

    closed spec fn view(&self) -> (Seq<char>, PortSettings) {
        (self.port@, self.settings)
    }
}

/// What is to be done next to bring up the serial transport.
#[derive(Debug)]
pub enum SerialSetup {
    /// Open the port with its settings, and hand the report to
    /// `Opening::opened`.
    Open(Opening),
    /// Perform the round, and hand the level of the status line, or the
    /// failure, to `Reset::accept`.
    Round(Round, Reset),
    /// The transport is up, or cannot be brought up.
    Done(Result<Serial, Error>),
}

/// What a `SerialSetup` is, as mathematics.
#[verifier::ext_equal]
pub enum SerialSetupView {
    Open { port: Seq<char>, settings: PortSettings },
    Round(Round, ResetView),
    Done(Result<(), Seq<char>>),
}

impl View for SerialSetup {
    type V = SerialSetupView;

    open spec fn view(&self) -> SerialSetupView {
        match *self {
            SerialSetup::Open(opening) => SerialSetupView::Open {
                port: opening@.0,
                settings: opening@.1,
            },
            SerialSetup::Round(round, reset) => SerialSetupView::Round(round, reset@),
            SerialSetup::Done(Ok(_)) => SerialSetupView::Done(Ok(())),
            SerialSetup::Done(Err(error)) => SerialSetupView::Done(Err(error@)),
        }
    }
}

/// The settings that the device's port is opened with.
pub open spec fn port_settings() -> PortSettings {
    PortSettings {
        baud_rate: BAUD_RATE,
        write_timeout_millis: WRITE_TIMEOUT_MILLIS,
        read_timeout_millis: READ_TIMEOUT_MILLIS,
    }
}

/// The first round of the handshake: the control line is raised.
pub open spec fn reset_begin() -> SerialSetupView {
    SerialSetupView::Round(
        Round {
            set_control_line: Some(true),
            discard_buffers: true,
            pause_millis: RESET_PAUSE_MILLIS,
        },
        ResetView { phase: Phase::On, attempt: 0 },
    )
}

/// Another round of the same half. While the control line is raised the
/// buffers are discarded before each look at the status line: what the
/// device sent before it was reset is of no use. While the line is lowered
/// nothing is discarded: the buffers are empty by then, and what the
/// device sends once it is let go is kept.
pub open spec fn reset_again(reset: ResetView) -> SerialSetupView {
    if reset.attempt >= RESET_RETRIES {
        SerialSetupView::Done(Err(reset.phase.message()))
    } else {
        SerialSetupView::Round(
            Round {
                set_control_line: None,
                discard_buffers: reset.phase is On,
                pause_millis: RESET_PAUSE_MILLIS,
            },
            ResetView { phase: reset.phase, attempt: (reset.attempt + 1) as u32 },
        )
    }
}

/// What follows a round of the handshake.
///
/// A failure of the port ends the handshake. While the control line is
/// raised, an active status line ends the first half, and the control line
/// is lowered; while it is lowered, an inactive status line ends the
/// handshake with success. A status line that has not followed is looked
/// at again, `RESET_RETRIES` times at most.
pub open spec fn reset_accept(reset: ResetView, report: Result<bool, IoFailureView>)
    -> SerialSetupView {
    match report {
        Err(failure) => SerialSetupView::Done(Err(io_error_message(failure.description))),
        Ok(active) => match reset.phase {
            Phase::On => if active {
                SerialSetupView::Round(
                    Round {
                        set_control_line: Some(false),
                        discard_buffers: false,
                        pause_millis: RESET_PAUSE_MILLIS,
                    },
                    ResetView { phase: Phase::Off, attempt: 0 },
                )
            } else {
                reset_again(reset)
            },
            Phase::Off => if !active {
                SerialSetupView::Done(Ok(()))
            } else {
                reset_again(reset)
            },
        },
    }
}

/// What follows the attempt to open the port: the handshake, or the
/// failure of the port.
pub open spec fn opening_opened(report: Result<(), IoFailureView>) -> SerialSetupView {
    match report {
        Ok(_) => reset_begin(),
        Err(failure) => SerialSetupView::Done(Err(io_error_message(failure.description))),
    }
}

/// The handshake after `rounds` rounds that each found the status line at
/// `level`, begun at `setup`.
pub open spec fn reset_rounds(setup: SerialSetupView, level: bool, rounds: nat)
    -> SerialSetupView
    decreases rounds,
{
    if rounds == 0 {
        setup
    } else {
        match reset_rounds(setup, level, (rounds - 1) as nat) {
            SerialSetupView::Round(_, reset) => reset_accept(reset, Ok(level)),
            other => other,
        }
    }
}

/// A status line that stays inactive keeps the handshake in its first
/// half for a hundred rounds, and the round after those ends it with the
/// failure of that half.
pub proof fn lemma_reset_never_active(rounds: nat)
    ensures
        rounds <= RESET_RETRIES ==> {
            &&& reset_rounds(reset_begin(), false, rounds) is Round
            &&& reset_rounds(reset_begin(), false, rounds)->Round_1 == (ResetView {
                phase: Phase::On,
                attempt: rounds as u32,
            })
        },
        rounds > RESET_RETRIES ==> reset_rounds(reset_begin(), false, rounds)
            == SerialSetupView::Done(Err(Phase::On.message())),
    decreases rounds,
{
    if rounds > 0 {
        lemma_reset_never_active((rounds - 1) as nat);
    }
}

/// A status line that rises at once and never falls back keeps the
/// handshake in its second half for a hundred rounds more, and the round
/// after those ends it with the failure of that half.
pub proof fn lemma_reset_never_inactive(rounds: nat)
    ensures
        0 < rounds <= RESET_RETRIES + 1 ==> {
            &&& reset_rounds(reset_begin(), true, rounds) is Round
            &&& reset_rounds(reset_begin(), true, rounds)->Round_1 == (ResetView {
                phase: Phase::Off,
                attempt: (rounds - 1) as u32,
            })
        },
        rounds > RESET_RETRIES + 1 ==> reset_rounds(reset_begin(), true, rounds)
            == SerialSetupView::Done(Err(Phase::Off.message())),
    decreases rounds,
{
    if rounds > 0 {
        lemma_reset_never_inactive((rounds - 1) as nat);
    }
}

/// The two halves of the handshake fail with different messages.
pub proof fn lemma_reset_messages_differ()
    ensures
        Phase::On.message() != Phase::Off.message(),
{
    reveal_strlit("Couldn't reset SC64 device (on)");
    reveal_strlit("Couldn't reset SC64 device (off)");
    assert(Phase::On.message().len() == 31);
    assert(Phase::Off.message().len() == 32);
}

impl Phase {
    fn error(self) -> (error: Error)
        ensures
            error@ == self.message(),
    {
        match self {
            Phase::On => Error::new("Couldn't reset SC64 device (on)"),
            Phase::Off => Error::new("Couldn't reset SC64 device (off)"),
        }
    }
}

impl Reset {
    fn again(self) -> (setup: SerialSetup)
        ensures
            setup@ == reset_again(self@),
    {
        if self.attempt >= RESET_RETRIES {
            SerialSetup::Done(Err(self.phase.error()))
        } else {
            let discard_buffers: bool = match self.phase {
                Phase::On => true,
                Phase::Off => false,
            };
            SerialSetup::Round(
                Round { set_control_line: None, discard_buffers, pause_millis: RESET_PAUSE_MILLIS },
                Reset { phase: self.phase, attempt: self.attempt + 1 },
            )
        }
    }

    /// Takes the level of the status line that a round has read, or the
    /// failure of the round, and says what follows.
    pub fn accept(self, report: Result<bool, IoFailure>) -> (setup: SerialSetup)
        ensures
            setup@ == reset_accept(self@, report_view(report)),
    {
        match report {
            Err(failure) => SerialSetup::Done(Err(Error::io(&failure))),
            Ok(active) => match self.phase {
                Phase::On => if active {
                    SerialSetup::Round(
                        Round {
                            set_control_line: Some(false),
                            discard_buffers: false,
                            pause_millis: RESET_PAUSE_MILLIS,
                        },
                        Reset { phase: Phase::Off, attempt: 0 },
                    )
                } else {
                    self.again()
                },
                Phase::Off => if !active {
                    SerialSetup::Done(Ok(Serial { settings: Serial::settings() }))
                } else {
                    self.again()
                },
            },
        }
    }
}

impl Opening {
    /// The name of the port that is to be opened.
    pub fn port(&self) -> (port: &str)
        ensures
            port@ == self@.0,
    {
        self.port.as_str()
    }

    /// The settings that the port is to be opened with.
    pub fn settings(&self) -> (settings: PortSettings)
        ensures
            settings == self@.1,
    {
        self.settings
    }

    /// Takes the report of the attempt to open the port, and says what
    /// follows.
    pub fn opened(self, report: Result<(), IoFailure>) -> (setup: SerialSetup)
        ensures
            setup@ == opening_opened(report_view(report)),
    {
        match report {
            Ok(_) => Serial::reset(),
            Err(failure) => SerialSetup::Done(Err(Error::io(&failure))),
        }
    }
}

/// Begins to bring up the serial transport on the port named `port`: the
/// port is opened first, then the device is reset.
pub fn new_serial(port: &str) -> (setup: SerialSetup)
    ensures
        setup@ == (SerialSetupView::Open { port: port@, settings: port_settings() }),
{
    SerialSetup::Open(Opening { port: String::from_str(port), settings: Serial::settings() })
}

impl Serial {
    /// The settings that the device's port is opened with.
    pub fn settings() -> (settings: PortSettings)
        ensures
            settings == port_settings(),
    {
        PortSettings {
            baud_rate: BAUD_RATE,
            write_timeout_millis: WRITE_TIMEOUT_MILLIS,
            read_timeout_millis: READ_TIMEOUT_MILLIS,
        }
    }

    /// Begins the reset handshake.
    pub fn reset() -> (setup: SerialSetup)
        ensures
            setup@ == reset_begin(),
    {
        SerialSetup::Round(
            Round {
                set_control_line: Some(true),
                discard_buffers: true,
                pause_millis: RESET_PAUSE_MILLIS,
            },
            Reset { phase: Phase::On, attempt: 0 },
        )
    }

    /// The bytes that carry `command` to the device. They are to be
    /// written in full and flushed.
    pub fn send_command(&self, command: &Command) -> (bytes: Vec<u8>)
        ensures
            bytes@ == serial_command_bytes(command@),
    {
        let mut bytes: Vec<u8> = Vec::new();
        bytes.push(0x43);
        bytes.push(0x4D);
        bytes.push(0x44);
        bytes.push(command.id);
        put_be32(&mut bytes, command.args[0]);
        put_be32(&mut bytes, command.args[1]);
        put_bytes(&mut bytes, command.data.as_slice());
        assert(bytes@ =~= serial_command_bytes(command@));
        bytes
    }

    /// Opens a read session held for a frame of the kind `data_type`.
    pub fn process_incoming_data(&self, data_type: DataType) -> (receiver: Receiver)
        ensures
            receiver@ == receiver_begin(Medium::Serial, data_type),
    {
        Receiver::begin(Medium::Serial, data_type)
    }
}

} // verus!
