//! The device's identifiers, endpoints and commands, the checks on its control transfers,
//! and the states of a streaming session.

use crate::ft60x_config::{FT60xConfig, ConfigView, parse_spec, CONFIG_LEN};
use crate::{Error, UsbError};
use vstd::prelude::*;

verus! {

/// Product identifier the device enumerates with by default.
pub const DEFAULT_PID: u16 = 0x601f;

/// Vendor identifier the device enumerates with by default.
pub const DEFAULT_VID: u16 = 0x0403;

/// Vendor request that reads or writes the configuration record.
pub const CONFIG_REQUEST: u8 = 0xcf;

/// `wValue` of the control transfer that reads the configuration record.
pub const GET_CONFIG_VALUE: u16 = 1;

/// `wValue` of the control transfer that writes the configuration record.
pub const SET_CONFIG_VALUE: u16 = 0;

/// Bulk OUT endpoint that takes commands.
pub const COMMAND_ENDPOINT: u8 = 0x01;

/// Bulk IN endpoint that streams the data.
pub const DATA_ENDPOINT: u8 = 0x82;

/// Timeout of every single USB operation, in seconds.
pub const TIMEOUT_SECS: u64 = 1;

/// The command that switches the device to streaming from its IN endpoint.
pub open spec fn streaming_mode_command_spec() -> Seq<u8> {
    seq![
        0x00u8, 0x00, 0x00, 0x00, 0x82, 0x02, 0x00, 0x00, 0x00, 0x00,
        0x00, 0x40, 0x00, 0x00, 0x00, 0x00, 0x00, 0x00, 0x00, 0x00,
    ]
}

/// The 20 bytes written to the command endpoint before the first read.
pub fn streaming_mode_command() -> (r: [u8; 20])
    ensures
        r@ == streaming_mode_command_spec(),
{
    let r: [u8; 20] = [
        0x00, 0x00, 0x00, 0x00, 0x82, 0x02, 0x00, 0x00, 0x00, 0x00,
        0x00, 0x40, 0x00, 0x00, 0x00, 0x00, 0x00, 0x00, 0x00, 0x00,
    ];
    assert(r@ =~= streaming_mode_command_spec());
    r
}

/// Decodes the configuration record that a control read of `read` bytes left in `buf`: any
/// byte count but the record's length is a protocol error.
pub fn config_from_control_read(read: usize, buf: [u8; 152]) -> (r: Result<FT60xConfig, Error>)
    ensures
        read != CONFIG_LEN ==> r == Err::<FT60xConfig, Error>(
            Error::ProtocolMismatch { expected: CONFIG_LEN, actual: read },
        ),
        read == CONFIG_LEN ==> (r is Ok <==> parse_spec(buf@) is Ok),
        read == CONFIG_LEN ==> (r matches Ok(c) ==> parse_spec(buf@) == Ok::<ConfigView, Error>(
            c@,
        )),
        read == CONFIG_LEN ==> (r matches Err(e) ==> parse_spec(buf@) == Err::<ConfigView, Error>(
            e,
        )),
{
    if read != CONFIG_LEN {
        return Err(Error::ProtocolMismatch { expected: CONFIG_LEN, actual: read });
    }
    FT60xConfig::parse(buf)
}

/// Checks that a control write of the configuration record moved all of it.
pub fn check_config_written(written: usize) -> (r: Result<(), Error>)
    ensures
        written == CONFIG_LEN ==> r is Ok,
        written != CONFIG_LEN ==> r == Err::<(), Error>(
            Error::ProtocolMismatch { expected: CONFIG_LEN, actual: written },
        ),
{
    if written != CONFIG_LEN {
        return Err(Error::ProtocolMismatch { expected: CONFIG_LEN, actual: written });
    }
    Ok(())
}

/// Where a streaming session stands.
#[derive(Debug, Clone, Copy, PartialEq, Eq, Structural)]
pub enum SessionState {
    /// Nothing sent to the device yet.
    Idle,
    /// Interfaces claimed and the streaming command sent.
    StreamingModeSet,
    /// The worker is filling buffers.
    Running,
    /// The consumer went away; the worker stopped without error.
    Cancelled,
    /// A USB or streaming error stopped the worker.
    Fatal,
}

/// What happened to a streaming session.
#[derive(Debug, Clone, Copy, PartialEq, Eq, Structural)]
pub enum SessionEvent {
    /// The interfaces were claimed and the streaming command was sent.
    ModeSwitched,
    /// Claiming the interfaces or sending the streaming command failed.
    ModeSwitchFailed(UsbError),
    /// The worker started.
    WorkerStarted,
    /// One buffer was filled and published.
    BufferPublished,
    /// Filling a buffer failed.
    FillFailed(Error),
    /// The consumer released its end.
    ConsumerGone,
}

impl SessionState {
    /// The next state: the mode switch happens once, from `Idle`; the worker runs only after
    /// it; a failure anywhere is fatal; the consumer leaving cancels. `Cancelled` and `Fatal`
    /// are final, and events that do not apply leave the state as it is.
    pub open spec fn next_spec(self, event: SessionEvent) -> SessionState {
        match (self, event) {
            (SessionState::Idle, SessionEvent::ModeSwitched) => SessionState::StreamingModeSet,
            (SessionState::Idle, SessionEvent::ModeSwitchFailed(_)) => SessionState::Fatal,
            (SessionState::StreamingModeSet, SessionEvent::WorkerStarted) => SessionState::Running,
            (SessionState::Running, SessionEvent::FillFailed(_)) => SessionState::Fatal,
            (SessionState::StreamingModeSet, SessionEvent::ConsumerGone) => SessionState::Cancelled,
            (SessionState::Running, SessionEvent::ConsumerGone) => SessionState::Cancelled,
            _ => self,
        }
    }

    pub fn next(self, event: SessionEvent) -> (r: SessionState)
        ensures
            r == self.next_spec(event),
    {
        match (self, event) {
            (SessionState::Idle, SessionEvent::ModeSwitched) => SessionState::StreamingModeSet,
            (SessionState::Idle, SessionEvent::ModeSwitchFailed(_)) => SessionState::Fatal,
            (SessionState::StreamingModeSet, SessionEvent::WorkerStarted) => SessionState::Running,
            (SessionState::Running, SessionEvent::FillFailed(_)) => SessionState::Fatal,
            (SessionState::StreamingModeSet, SessionEvent::ConsumerGone) => SessionState::Cancelled,
            (SessionState::Running, SessionEvent::ConsumerGone) => SessionState::Cancelled,
            _ => self,
        }
    }

    /// The streaming command is still to be sent: only from `Idle`, so it is sent once.
    pub fn needs_mode_switch(self) -> (r: bool)
        ensures
            r <==> self == SessionState::Idle,
    {
        matches!(self, SessionState::Idle)
    }

    /// The worker may fill buffers.
    pub fn may_fill(self) -> (r: bool)
        ensures
            r <==> (self == SessionState::StreamingModeSet || self == SessionState::Running),
    {
        matches!(self, SessionState::StreamingModeSet | SessionState::Running)
    }
}

/// Once the streaming command went out, no event brings the session back to sending it.
pub proof fn lemma_mode_switch_once(s: SessionState, e: SessionEvent)
    requires
        s != SessionState::Idle,
    ensures
        s.next_spec(e) != SessionState::Idle,
{
}

/// `Cancelled` and `Fatal` are final.
pub proof fn lemma_final_states(s: SessionState, e: SessionEvent)
    requires
        s == SessionState::Cancelled || s == SessionState::Fatal,
    ensures
        s.next_spec(e) == s,
{
}

} // verus!
