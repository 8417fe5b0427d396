//! Host-side driver logic for an FT60x USB 3.0 FIFO bridge: the configuration record, the
//! windowed reads that fill a buffer from the bulk endpoint, the pipeline that overlaps
//! several such fills, the streaming session, and the ring channel that hands full buffers to
//! a consumer thread.

use vstd::prelude::*;

pub mod bulk_reader;
pub mod byte_order;
pub mod counter_check;
pub mod ft60x;
pub mod ft60x_config;
pub mod pipeline;
pub mod ringbuf;

verus! {

/// Failure reported by the USB layer, one variant per kind that libusb distinguishes.
#[derive(Debug, Clone, Copy, PartialEq, Eq, Structural)]
pub enum UsbError {
    Io,
    InvalidParam,
    Access,
    NoDevice,
    NotFound,
    Busy,
    Timeout,
    Overflow,
    Pipe,
    Interrupted,
    NoMem,
    NotSupported,
    BadDescriptor,
    Other,
}

/// Everything that can go wrong while configuring or streaming from the device.
#[derive(Debug, Clone, Copy, PartialEq, Eq, Structural)]
pub enum Error {
    /// No device with this vendor and product identifier could be opened.
    DeviceNotFound { vid: u16, pid: u16 },
    /// The USB layer failed (timeout, stall, disconnect, ...).
    Usb(UsbError),
    /// A bulk read completed with fewer bytes than it asked for.
    ShortTransfer { requested: usize, actual: usize },
    /// Not every submitted chunk request could be accounted for once the device went quiet.
    IncompleteDrain { submitted: usize, completed: usize },
    /// A control transfer moved another number of bytes than the configuration record holds.
    ProtocolMismatch { expected: usize, actual: usize },
    /// A string descriptor in the configuration record is malformed or not ASCII.
    InvalidStringField,
    /// A string of the configuration is not ASCII, or the three do not fit their area.
    UnencodableString,
    UnknownFifoClock(u8),
    UnknownFifoMode(u8),
    UnknownChannelConfig(u8),
    /// The other end of the stream went away; the stream is over.
    Cancelled,
}

} // verus!
