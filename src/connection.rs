//! Frames: a header and its body. Building the bytes to send, and reading a
//! frame back into the packet that its command selects.
use crate::command::{command_of, is_registered, Command};
use crate::error::{OpenRGBError, OpenRGBResult};
use crate::header::{header_at, header_le, lemma_header_round_trip, PacketHeader, MAGIC};
use crate::packet::{
    agrees_body, count_body, count_body_at, data_body, data_body_at, data_error, emits,
    id_pair_body, id_pair_body_at, id_pair_error, lemma_count_body_round_trip,
    lemma_data_body_round_trip, lemma_id_pair_body_round_trip, lemma_leds_body_round_trip,
    lemma_mode_body_round_trip, lemma_name_body_round_trip, lemma_zone_leds_body_round_trip,
    leds_body, leds_body_at, leds_error, mode_body, mode_body_at, mode_error, name_body,
    name_body_at, zone_leds_body, zone_leds_body_at, zone_leds_error, OpenRGBPacket,
    RequestControllerCountPacket, RequestControllerDataPacket, ResizeZonePacket,
    SetClientNamePacket, UpdateLedsPacket, UpdateModePacket, UpdateSingleLedPacket,
    UpdateZoneLedsPacket, U32_MAX,
};
use crate::types::{device_valid, DeviceModel, ModeModel};
use crate::wire::{agrees, avail, bytes_at, lemma_bytes_at_concat, u32_val, Parsed};
use vstd::prelude::*;
use vstd::slice::slice_subrange;

verus! {

/// A decoded body, tagged by the command that its header declared.
#[derive(Debug, Clone, PartialEq, Eq)]
pub enum OpenRGBPackets {
    SetClientName(SetClientNamePacket),
    RequestControllerCount(RequestControllerCountPacket),
    RequestControllerData(RequestControllerDataPacket),
    UpdateMode(UpdateModePacket),
    UpdateLeds(UpdateLedsPacket),
    UpdateZoneLeds(UpdateZoneLedsPacket),
    UpdateSingleLed(UpdateSingleLedPacket),
    ResizeZone(ResizeZonePacket),
    /// A frame with no body: only its command.
    Command(Command),
}

/// The value of a decoded body.
pub enum PacketModel {
    SetClientName(Seq<char>),
    RequestControllerCount(u32),
    RequestControllerData(DeviceModel),
    UpdateMode((usize, ModeModel)),
    UpdateLeds(Seq<u32>),
    UpdateZoneLeds((usize, Seq<u32>)),
    UpdateSingleLed((usize, u32)),
    ResizeZone((usize, u32)),
    Command(Command),
}

impl View for OpenRGBPackets {
    type V = PacketModel;

    open spec fn view(&self) -> PacketModel {
        match self {
            OpenRGBPackets::SetClientName(p) => PacketModel::SetClientName(p@),
            OpenRGBPackets::RequestControllerCount(p) => PacketModel::RequestControllerCount(p@),
            OpenRGBPackets::RequestControllerData(p) => PacketModel::RequestControllerData(p@),
            OpenRGBPackets::UpdateMode(p) => PacketModel::UpdateMode(p@),
            OpenRGBPackets::UpdateLeds(p) => PacketModel::UpdateLeds(p@),
            OpenRGBPackets::UpdateZoneLeds(p) => PacketModel::UpdateZoneLeds(p@),
            OpenRGBPackets::UpdateSingleLed(p) => PacketModel::UpdateSingleLed(p@),
            OpenRGBPackets::ResizeZone(p) => PacketModel::ResizeZone(p@),
            OpenRGBPackets::Command(c) => PacketModel::Command(*c),
        }
    }
}

pub open spec fn packet_command(pm: PacketModel) -> Command {
    match pm {
        PacketModel::SetClientName(_) => Command::SetClientName,
        PacketModel::RequestControllerCount(_) => Command::RequestControllerCount,
        PacketModel::RequestControllerData(_) => Command::RequestControllerData,
        PacketModel::UpdateMode(_) => Command::UpdateMode,
        PacketModel::UpdateLeds(_) => Command::UpdateLeds,
        PacketModel::UpdateZoneLeds(_) => Command::UpdateZoneLeds,
        PacketModel::UpdateSingleLed(_) => Command::UpdateSingleLed,
        PacketModel::ResizeZone(_) => Command::ResizeZone,
        PacketModel::Command(c) => c,
    }
}

pub open spec fn packet_body(pm: PacketModel) -> Seq<u8> {
    match pm {
        PacketModel::SetClientName(t) => name_body(t),
        PacketModel::RequestControllerCount(c) => count_body(c),
        PacketModel::RequestControllerData(d) => data_body(d),
        PacketModel::UpdateMode(v) => mode_body(v),
        PacketModel::UpdateLeds(cs) => leds_body(cs),
        PacketModel::UpdateZoneLeds(v) => zone_leds_body(v),
        PacketModel::UpdateSingleLed(v) => id_pair_body(v),
        PacketModel::ResizeZone(v) => id_pair_body(v),
        PacketModel::Command(_) => Seq::empty(),
    }
}

/// Why a packet's body cannot be written, if it cannot.
pub open spec fn packet_error(pm: PacketModel) -> Option<OpenRGBError> {
    match pm {
        PacketModel::RequestControllerData(d) => data_error(d),
        PacketModel::UpdateMode(v) => mode_error(v),
        PacketModel::UpdateLeds(cs) => leds_error(cs),
        PacketModel::UpdateZoneLeds(v) => zone_leds_error(v),
        PacketModel::UpdateSingleLed(v) => id_pair_error(v),
        PacketModel::ResizeZone(v) => id_pair_error(v),
        _ => None,
    }
}

/// Every matrix map of a device packet covers its layout.
pub open spec fn packet_valid(pm: PacketModel) -> bool {
    match pm {
        PacketModel::RequestControllerData(d) => device_valid(d),
        _ => true,
    }
}

/// Reads a body that a header declared for command `c`. An empty body is a
/// bare command; a body for a command that carries none is refused.
#[verifier::opaque]
pub open spec fn body_at(c: Command, b: Seq<u8>) -> Result<PacketModel, OpenRGBError> {
    if b.len() == 0 {
        Ok(PacketModel::Command(c))
    } else {
        match c {
            Command::SetClientName => match name_body_at(b) {
                Ok(v) => Ok(PacketModel::SetClientName(v)),
                Err(e) => Err(e),
            },
            Command::RequestControllerCount => match count_body_at(b) {
                Ok(v) => Ok(PacketModel::RequestControllerCount(v)),
                Err(e) => Err(e),
            },
            Command::RequestControllerData => match data_body_at(b) {
                Ok(v) => Ok(PacketModel::RequestControllerData(v)),
                Err(e) => Err(e),
            },
            Command::UpdateMode => match mode_body_at(b) {
                Ok(v) => Ok(PacketModel::UpdateMode(v)),
                Err(e) => Err(e),
            },
            Command::UpdateLeds => match leds_body_at(b) {
                Ok(v) => Ok(PacketModel::UpdateLeds(v)),
                Err(e) => Err(e),
            },
            Command::UpdateZoneLeds => match zone_leds_body_at(b) {
                Ok(v) => Ok(PacketModel::UpdateZoneLeds(v)),
                Err(e) => Err(e),
            },
            Command::UpdateSingleLed => match id_pair_body_at(b) {
                Ok(v) => Ok(PacketModel::UpdateSingleLed(v)),
                Err(e) => Err(e),
            },
            Command::ResizeZone => match id_pair_body_at(b) {
                Ok(v) => Ok(PacketModel::ResizeZone(v)),
                Err(e) => Err(e),
            },
            Command::SetCustomMode => Err(OpenRGBError::InvalidPacketBody(c)),
        }
    }
}

/// Why a frame for the packet cannot be written: its body cannot, or its
/// length does not fit the header's `u32` field.
pub open spec fn frame_error(pm: PacketModel) -> Option<OpenRGBError> {
    match packet_error(pm) {
        Some(e) => Some(e),
        None => if packet_body(pm).len() > U32_MAX {
            Some(OpenRGBError::InputTooLarge)
        } else {
            None
        },
    }
}

/// The header of a frame that carries `body`.
pub open spec fn frame_header(device: u32, c: Command, body: Seq<u8>) -> PacketHeader {
    PacketHeader { magic: MAGIC, device, command: c, length: body.len() as u32 }
}

pub open spec fn frame_le(device: u32, pm: PacketModel) -> Seq<u8> {
    header_le(frame_header(device, packet_command(pm), packet_body(pm))) + packet_body(pm)
}

/// Reads one frame at `p`: the header, then exactly the body length it
/// declares, decoded by the body reader of its command.
#[verifier::opaque]
pub open spec fn frame_at(s: Seq<u8>, p: int) -> Parsed<PacketModel> {
    match header_at(s, p) {
        Ok((h, q)) => if q + h.length > s.len() {
            Err(OpenRGBError::UnexpectedEndOfData)
        } else {
            match body_at(h.command, s.subrange(q, q + h.length)) {
                Ok(pm) => Ok((pm, q + h.length)),
                Err(e) => Err(e),
            }
        },
        Err(e) => Err(e),
    }
}

/// Every body that can be written reads back as the same packet under its
/// command, but for a client name with no bytes, which reads as a bare
/// command.
pub proof fn lemma_body_round_trip(pm: PacketModel)
    requires
        packet_error(pm) is None,
        packet_valid(pm),
        packet_body(pm).len() > 0 || pm is Command,
    ensures
        body_at(packet_command(pm), packet_body(pm)) == Ok::<PacketModel, OpenRGBError>(pm),
{
    reveal(body_at);
    match pm {
        PacketModel::SetClientName(t) => lemma_name_body_round_trip(t),
        PacketModel::RequestControllerCount(c) => lemma_count_body_round_trip(c),
        PacketModel::RequestControllerData(d) => lemma_data_body_round_trip(d),
        PacketModel::UpdateMode(v) => lemma_mode_body_round_trip(v),
        PacketModel::UpdateLeds(cs) => lemma_leds_body_round_trip(cs),
        PacketModel::UpdateZoneLeds(v) => lemma_zone_leds_body_round_trip(v),
        PacketModel::UpdateSingleLed(v) => lemma_id_pair_body_round_trip(v),
        PacketModel::ResizeZone(v) => lemma_id_pair_body_round_trip(v),
        PacketModel::Command(_) => {},
    }
}

proof fn lemma_frame_parts(s: Seq<u8>, h: PacketHeader, body: Seq<u8>, pm: PacketModel)
    requires
        h.magic == MAGIC,
        h.length == body.len(),
        bytes_at(s, 0, header_le(h) + body),
        body_at(h.command, body) == Ok::<PacketModel, OpenRGBError>(pm),
    ensures
        frame_at(s, 0) == Ok::<(PacketModel, int), OpenRGBError>((pm, 16 + body.len() as int)),
{
    reveal(frame_at);
    lemma_bytes_at_concat(s, 0, header_le(h), body);
    lemma_header_round_trip(s, 0, h);
    assert(s.subrange(16, 16 + h.length) =~= body);
}

/// A frame written for any device id reads back as the same packet and
/// consumes exactly the frame, but for a client name with no bytes.
#[verifier::spinoff_prover]
pub proof fn lemma_frame_round_trip(device: u32, pm: PacketModel, rest: Seq<u8>)
    requires
        frame_error(pm) is None,
        packet_valid(pm),
        packet_body(pm).len() > 0 || pm is Command,
    ensures
        frame_at(frame_le(device, pm) + rest, 0) == Ok::<(PacketModel, int), OpenRGBError>(
            (pm, frame_le(device, pm).len() as int),
        ),
{
    let body = packet_body(pm);
    let h = frame_header(device, packet_command(pm), body);
    let s = frame_le(device, pm) + rest;
    assert(s.subrange(0, (header_le(h) + body).len() as int) =~= header_le(h) + body);
    lemma_body_round_trip(pm);
    lemma_frame_parts(s, h, body, pm);
}

/// A header with the magic and an id outside the registry is refused with
/// that id, before any of its body is read.
pub proof fn lemma_unknown_command_refused(s: Seq<u8>, p: int)
    requires
        avail(s, p, 16),
        u32_val(s, p) == MAGIC,
        !is_registered(u32_val(s, p + 8)),
    ensures
        header_at(s, p) == Err::<(PacketHeader, int), OpenRGBError>(
            OpenRGBError::UnknownCommand(u32_val(s, p + 8)),
        ),
        frame_at(s, p) == Err::<(PacketModel, int), OpenRGBError>(
            OpenRGBError::UnknownCommand(u32_val(s, p + 8)),
        ),
{
    reveal(frame_at);
}

/// A controller-data body whose inner count is not the body length less 4
/// is refused as a length mismatch.
pub proof fn lemma_data_length_mismatch(b: Seq<u8>)
    requires
        avail(b, 0, 4),
        u32_val(b, 0) != b.len() - 4,
    ensures
        body_at(Command::RequestControllerData, b) == Err::<PacketModel, OpenRGBError>(
            OpenRGBError::LengthMismatch,
        ),
{
    reveal(body_at);
}

/// The same refusal seen from a whole frame: the inner count must be the
/// header's length less 4.
pub proof fn lemma_frame_data_length_mismatch(s: Seq<u8>)
    requires
        header_at(s, 0) matches Ok((h, q)) && h.command == Command::RequestControllerData && q
            + h.length <= s.len() && h.length >= 4 && u32_val(s, 16) != h.length - 4,
    ensures
        frame_at(s, 0) == Err::<(PacketModel, int), OpenRGBError>(OpenRGBError::LengthMismatch),
{
    reveal(frame_at);
    let h = header_at(s, 0)->Ok_0.0;
    let body = s.subrange(16, 16 + h.length);
    assert(u32_val(body, 0) == u32_val(s, 16));
    lemma_data_length_mismatch(body);
}

impl OpenRGBPacket for OpenRGBPackets {
    open spec fn command_spec(&self) -> Command {
        packet_command(self@)
    }

    fn command(&self) -> (r: Command) {
        match self {
            OpenRGBPackets::SetClientName(p) => p.command(),
            OpenRGBPackets::RequestControllerCount(p) => p.command(),
            OpenRGBPackets::RequestControllerData(p) => p.command(),
            OpenRGBPackets::UpdateMode(p) => p.command(),
            OpenRGBPackets::UpdateLeds(p) => p.command(),
            OpenRGBPackets::UpdateZoneLeds(p) => p.command(),
            OpenRGBPackets::UpdateSingleLed(p) => p.command(),
            OpenRGBPackets::ResizeZone(p) => p.command(),
            OpenRGBPackets::Command(c) => *c,
        }
    }
}

impl OpenRGBPackets {
    /// The packet's body; a bare command has none.
    pub fn serialize(&self) -> (r: OpenRGBResult<Vec<u8>>)
        ensures
            emits(r, packet_error(self@), packet_body(self@)),
    {
        match self {
            OpenRGBPackets::SetClientName(p) => p.serialize(),
            OpenRGBPackets::RequestControllerCount(p) => p.serialize(),
            OpenRGBPackets::RequestControllerData(p) => p.serialize(),
            OpenRGBPackets::UpdateMode(p) => p.serialize(),
            OpenRGBPackets::UpdateLeds(p) => p.serialize(),
            OpenRGBPackets::UpdateZoneLeds(p) => p.serialize(),
            OpenRGBPackets::UpdateSingleLed(p) => p.serialize(),
            OpenRGBPackets::ResizeZone(p) => p.serialize(),
            OpenRGBPackets::Command(_) => Ok(Vec::new()),
        }
    }

    /// Decodes a body that a header declared for `command`.
    pub fn deserialize(command: Command, body: &[u8]) -> (r: OpenRGBResult<OpenRGBPackets>)
        ensures
            agrees_body(r, body_at(command, body@)),
    {
        reveal(body_at);
        if body.len() == 0 {
            return Ok(OpenRGBPackets::Command(command));
        }
        match command {
            Command::SetClientName => Ok(
                OpenRGBPackets::SetClientName(SetClientNamePacket::deserialize(body)?),
            ),
            Command::RequestControllerCount => Ok(
                OpenRGBPackets::RequestControllerCount(
                    RequestControllerCountPacket::deserialize(body)?,
                ),
            ),
            Command::RequestControllerData => Ok(
                OpenRGBPackets::RequestControllerData(
                    RequestControllerDataPacket::deserialize(body)?,
                ),
            ),
            Command::UpdateMode => Ok(
                OpenRGBPackets::UpdateMode(UpdateModePacket::deserialize(body)?),
            ),
            Command::UpdateLeds => Ok(
                OpenRGBPackets::UpdateLeds(UpdateLedsPacket::deserialize(body)?),
            ),
            Command::UpdateZoneLeds => Ok(
                OpenRGBPackets::UpdateZoneLeds(UpdateZoneLedsPacket::deserialize(body)?),
            ),
            Command::UpdateSingleLed => Ok(
                OpenRGBPackets::UpdateSingleLed(UpdateSingleLedPacket::deserialize(body)?),
            ),
            Command::ResizeZone => Ok(
                OpenRGBPackets::ResizeZone(ResizeZonePacket::deserialize(body)?),
            ),
            Command::SetCustomMode => Err(OpenRGBError::InvalidPacketBody(command)),
        }
    }
}

/// The frame of a bodyless command: a header with length 0.
pub fn command_frame(command: Command, device: u32) -> (r: Vec<u8>)
    ensures
        r@ == header_le(frame_header(device, command, Seq::empty())),
{
    let mut out: Vec<u8> = Vec::new();
    PacketHeader::new(device, command, 0).serialize(&mut out);
    assert(out@ =~= header_le(frame_header(device, command, Seq::empty())));
    out
}

/// The frame of a packet: a header whose length is the body's, then the body.
pub fn packet_frame(packet: &OpenRGBPackets, device: u32) -> (r: OpenRGBResult<Vec<u8>>)
    ensures
        emits(r, frame_error(packet@), frame_le(device, packet@)),
{
    let mut body = packet.serialize()?;
    if body.len() > U32_MAX {
        return Err(OpenRGBError::InputTooLarge);
    }
    let mut out: Vec<u8> = Vec::new();
    PacketHeader::new(device, packet.command(), body.len() as u32).serialize(&mut out);
    out.append(&mut body);
    Ok(out)
}

/// Reads one frame from the start of `input`: returns the packet and the
/// number of bytes the frame took.
pub fn read_packet(input: &[u8]) -> (r: OpenRGBResult<(OpenRGBPackets, usize)>)
    ensures
        agrees(r, frame_at(input@, 0)),
{
    reveal(frame_at);
    let (header, start) = PacketHeader::deserialize(input, 0)?;
    let length = header.length as usize;
    if input.len() - start < length {
        return Err(OpenRGBError::UnexpectedEndOfData);
    }
    let body = slice_subrange(input, start, start + length);
    let packet = OpenRGBPackets::deserialize(header.command, body)?;
    Ok((packet, start + length))
}

} // verus!
