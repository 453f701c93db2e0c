//! The fixed 16-byte frame header: magic, device id, command id, body length.
use crate::command::{command_id, command_of, Command};
use crate::error::{OpenRGBError, OpenRGBResult};
use crate::wire::{
    agrees, avail, bytes_at, lemma_bytes_at_concat, lemma_u32_round_trip, put_u32, read_u32,
    u32_le, u32_val, Parsed,
};
use vstd::prelude::*;

verus! {

/// The constant that opens every frame.
pub const MAGIC: u32 = 1111970383;

/// The header that precedes every body.
#[derive(Debug, Clone, Copy, PartialEq, Eq, Structural)]
pub struct PacketHeader {
    pub magic: u32,
    pub device: u32,
    pub command: Command,
    pub length: u32,
}

impl View for PacketHeader {
    type V = PacketHeader;

    open spec fn view(&self) -> PacketHeader {
        *self
    }
}

/// The four fields in order, each a little-endian `u32`.
pub open spec fn header_le(h: PacketHeader) -> Seq<u8> {
    u32_le(h.magic) + u32_le(h.device) + u32_le(command_id(h.command)) + u32_le(h.length)
}

/// The magic is checked first, then the command id.
pub open spec fn header_at(s: Seq<u8>, p: int) -> Parsed<PacketHeader> {
    if !avail(s, p, 4) {
        Err(OpenRGBError::UnexpectedEndOfData)
    } else if u32_val(s, p) != MAGIC {
        Err(OpenRGBError::ProtocolMismatch(u32_val(s, p)))
    } else if !avail(s, p, 16) {
        Err(OpenRGBError::UnexpectedEndOfData)
    } else {
        match command_of(u32_val(s, p + 8)) {
            Some(command) => Ok(
                (
                    PacketHeader {
                        magic: MAGIC,
                        device: u32_val(s, p + 4),
                        command,
                        length: u32_val(s, p + 12),
                    },
                    p + 16,
                ),
            ),
            None => Err(OpenRGBError::UnknownCommand(u32_val(s, p + 8))),
        }
    }
}

/// A header with the protocol magic reads back from its encoding, whatever
/// its device id and length, 0 and `u32::MAX` included.
pub proof fn lemma_header_round_trip(s: Seq<u8>, p: int, h: PacketHeader)
    requires
        h.magic == MAGIC,
        bytes_at(s, p, header_le(h)),
    ensures
        header_at(s, p) == Ok::<(PacketHeader, int), OpenRGBError>((h, p + 16)),
{
    let a = u32_le(h.magic);
    let b = u32_le(h.device);
    let c = u32_le(command_id(h.command));
    lemma_bytes_at_concat(s, p, a + b + c, u32_le(h.length));
    lemma_bytes_at_concat(s, p, a + b, c);
    lemma_bytes_at_concat(s, p, a, b);
    lemma_u32_round_trip(s, p, h.magic);
    lemma_u32_round_trip(s, p + 4, h.device);
    lemma_u32_round_trip(s, p + 8, command_id(h.command));
    lemma_u32_round_trip(s, p + 12, h.length);
}

/// A header whose first four bytes are not the magic is refused as a
/// protocol mismatch, whatever follows them.
pub proof fn lemma_header_bad_magic(s: Seq<u8>, p: int)
    requires
        avail(s, p, 4),
        u32_val(s, p) != MAGIC,
    ensures
        header_at(s, p) == Err::<(PacketHeader, int), OpenRGBError>(
            OpenRGBError::ProtocolMismatch(u32_val(s, p)),
        ),
{
}

impl PacketHeader {
    /// A header with the protocol magic.
    pub fn new(device: u32, command: Command, length: u32) -> (r: PacketHeader)
        ensures
            r == (PacketHeader { magic: MAGIC, device, command, length }),
    {
        PacketHeader { magic: MAGIC, device, command, length }
    }

    /// Appends the 16 header bytes to `out`.
    pub fn serialize(&self, out: &mut Vec<u8>)
        ensures
            final(out)@ == old(out)@ + header_le(*self),
    {
        put_u32(out, self.magic);
        put_u32(out, self.device);
        put_u32(out, self.command.to_id());
        put_u32(out, self.length);
        assert(out@ =~= old(out)@ + header_le(*self));
    }

    /// Reads a header at `pos`; returns it with the position after it.
    pub fn deserialize(data: &[u8], pos: usize) -> (r: OpenRGBResult<(PacketHeader, usize)>)
        ensures
            agrees(r, header_at(data@, pos as int)),
    {
        if pos > data.len() || data.len() - pos < 4 {
            return Err(OpenRGBError::UnexpectedEndOfData);
        }
        let magic = read_u32(data, pos);
        if magic != MAGIC {
            return Err(OpenRGBError::ProtocolMismatch(magic));
        }
        if data.len() - pos < 16 {
            return Err(OpenRGBError::UnexpectedEndOfData);
        }
        let device = read_u32(data, pos + 4);
        let command = Command::from_id(read_u32(data, pos + 8))?;
        let length = read_u32(data, pos + 12);
        Ok((PacketHeader { magic, device, command, length }, pos + 16))
    }
}

} // verus!
