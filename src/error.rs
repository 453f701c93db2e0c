use crate::command::Command;
use vstd::prelude::*;

verus! {

/// Every way a codec or session operation can fail.
#[derive(Debug, Clone, PartialEq, Eq)]
pub enum OpenRGBError {
    /// The underlying stream failed; reported by the transport owner.
    Transport,
    /// A header carried a magic value other than the protocol constant.
    ProtocolMismatch(u32),
    /// A command id outside the registry.
    UnknownCommand(u32),
    /// A length-prefixed text held bytes that are not UTF-8.
    MalformedText,
    /// Two length fields disagree, or a body holds trailing bytes.
    LengthMismatch,
    /// The input ended before a field was complete.
    UnexpectedEndOfData,
    /// A response decoded to another packet kind than the one asked for.
    UnexpectedVariant,
    /// An element id that is unknown or does not fit the wire field.
    InvalidId(usize),
    /// More colors than the target has LEDs: (expected at most, found).
    InvalidColorAmount(usize, usize),
    /// No mode of the device has this name.
    InvalidMode(String),
    /// A body arrived for a command that carries none.
    InvalidPacketBody(Command),
    /// A text or a collection is too large for its wire count field.
    InputTooLarge,
}

pub type OpenRGBResult<T> = Result<T, OpenRGBError>;

} // verus!
