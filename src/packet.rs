//! Payload codecs: one body layout per command, and the tagged union of
//! decoded bodies.
use crate::command::Command;
use crate::error::{OpenRGBError, OpenRGBResult};
use crate::types::{
    device_fits, device_le, device_valid, lemma_device_round_trip, lemma_mode_round_trip,
    mode_fits, mode_le, DeviceModel, ModeModel, OpenRGBColor, OpenRGBDevice, OpenRGBMode,
    OpenRGBSendable,
};
use crate::wire::{
    avail, bytes_at, get_u16, get_u32, get_u32s, lemma_bytes_at_concat, lemma_u16_round_trip,
    lemma_u32_round_trip, lemma_u32s_len, lemma_u32s_round_trip, put_u16, put_u32, put_u32s,
    read_u32, u16_at, u16_le, u32_at, u32_le, u32_val, u32s_at, u32s_le, Parsed,
};
use vstd::prelude::*;
use vstd::slice::slice_to_vec;
use vstd::utf8::decode_utf8;
use vstd::utf8::encode_utf8;
use vstd::utf8::valid_utf8;

verus! {

/// The largest value a `u32` wire field holds.
pub const U32_MAX: usize = 0xFFFF_FFFF;

/// A read that must end exactly at the end of the body.
pub open spec fn whole<V>(r: Parsed<V>, len: int) -> Result<V, OpenRGBError> {
    match r {
        Ok((v, q)) => if q == len {
            Ok(v)
        } else {
            Err(OpenRGBError::LengthMismatch)
        },
        Err(e) => Err(e),
    }
}

/// A body that opens with a `u32` count of the bytes after it; `rest` is the
/// read of those bytes, from position 4 on.
pub open spec fn framed<V>(b: Seq<u8>, rest: Parsed<V>) -> Result<V, OpenRGBError> {
    if !avail(b, 0, 4) {
        Err(OpenRGBError::UnexpectedEndOfData)
    } else if u32_val(b, 0) != b.len() - 4 {
        Err(OpenRGBError::LengthMismatch)
    } else {
        whole(rest, b.len() as int)
    }
}

/// An executable body decode agrees with the spec-level one.
pub open spec fn agrees_body<T: View>(
    r: Result<T, OpenRGBError>,
    p: Result<T::V, OpenRGBError>,
) -> bool {
    match r {
        Ok(v) => p == Ok::<T::V, OpenRGBError>(v@),
        Err(e) => p == Err::<T::V, OpenRGBError>(e),
    }
}

/// An executable body encode fails with `err` when it is set, and otherwise
/// returns `bytes`.
pub open spec fn emits(r: Result<Vec<u8>, OpenRGBError>, err: Option<OpenRGBError>, bytes: Seq<
    u8,
>) -> bool {
    match err {
        Some(e) => r == Err::<Vec<u8>, OpenRGBError>(e),
        None => r matches Ok(b) && b@ == bytes,
    }
}

/// A payload tied to exactly one command.
pub trait OpenRGBPacket {
    spec fn command_spec(&self) -> Command;

    fn command(&self) -> (r: Command)
        ensures
            r == self.command_spec(),
    ;
}

/// Checks the inner byte count of a framed body.
fn check_framed(b: &[u8]) -> (r: OpenRGBResult<()>)
    ensures
        !avail(b@, 0, 4) ==> r == Err::<(), OpenRGBError>(OpenRGBError::UnexpectedEndOfData),
        avail(b@, 0, 4) && u32_val(b@, 0) != b@.len() - 4 ==> r == Err::<(), OpenRGBError>(
            OpenRGBError::LengthMismatch,
        ),
        avail(b@, 0, 4) && u32_val(b@, 0) == b@.len() - 4 ==> r is Ok,
{
    if b.len() < 4 {
        return Err(OpenRGBError::UnexpectedEndOfData);
    }
    if read_u32(b, 0) as usize != b.len() - 4 {
        return Err(OpenRGBError::LengthMismatch);
    }
    Ok(())
}

/// The client announces its name: the raw UTF-8 bytes, with no count.
#[derive(Debug, Clone, PartialEq, Eq)]
pub struct SetClientNamePacket {
    pub name: String,
}

impl View for SetClientNamePacket {
    type V = Seq<char>;

    open spec fn view(&self) -> Seq<char> {
        self.name@
    }
}

pub open spec fn name_body(t: Seq<char>) -> Seq<u8> {
    encode_utf8(t)
}

pub open spec fn name_body_at(b: Seq<u8>) -> Result<Seq<char>, OpenRGBError> {
    if valid_utf8(b) {
        Ok(decode_utf8(b))
    } else {
        Err(OpenRGBError::MalformedText)
    }
}

impl SetClientNamePacket {
    pub fn new(name: String) -> (r: SetClientNamePacket)
        ensures
            r@ == name@,
    {
        SetClientNamePacket { name }
    }

    /// The body: the name's UTF-8 bytes.
    pub fn serialize(&self) -> (r: OpenRGBResult<Vec<u8>>)
        ensures
            emits(r, None, name_body(self@)),
    {
        Ok(slice_to_vec(self.name.as_str().as_bytes()))
    }

    /// The whole body is the name; it must be UTF-8.
    pub fn deserialize(body: &[u8]) -> (r: OpenRGBResult<SetClientNamePacket>)
        ensures
            agrees_body(r, name_body_at(body@)),
    {
        match crate::wire::utf8_text(slice_to_vec(body)) {
            Some(name) => Ok(SetClientNamePacket { name }),
            None => Err(OpenRGBError::MalformedText),
        }
    }
}

impl OpenRGBPacket for SetClientNamePacket {
    open spec fn command_spec(&self) -> Command {
        Command::SetClientName
    }

    fn command(&self) -> (r: Command) {
        Command::SetClientName
    }
}

/// The server's answer to a count request: a single `u32`.
#[derive(Debug, Clone, PartialEq, Eq)]
pub struct RequestControllerCountPacket {
    pub count: u32,
}

impl View for RequestControllerCountPacket {
    type V = u32;

    open spec fn view(&self) -> u32 {
        self.count
    }
}

pub open spec fn count_body(c: u32) -> Seq<u8> {
    u32_le(c)
}

pub open spec fn count_body_at(b: Seq<u8>) -> Result<u32, OpenRGBError> {
    whole(u32_at(b, 0), b.len() as int)
}

impl RequestControllerCountPacket {
    pub fn new(count: u32) -> (r: RequestControllerCountPacket)
        ensures
            r.count == count,
    {
        RequestControllerCountPacket { count }
    }

    pub fn serialize(&self) -> (r: OpenRGBResult<Vec<u8>>)
        ensures
            emits(r, None, count_body(self@)),
    {
        let mut out: Vec<u8> = Vec::new();
        put_u32(&mut out, self.count);
        assert(out@ =~= count_body(self@));
        Ok(out)
    }

    pub fn deserialize(body: &[u8]) -> (r: OpenRGBResult<RequestControllerCountPacket>)
        ensures
            agrees_body(r, count_body_at(body@)),
    {
        let (count, end) = get_u32(body, 0)?;
        if end != body.len() {
            return Err(OpenRGBError::LengthMismatch);
        }
        Ok(RequestControllerCountPacket { count })
    }
}

impl OpenRGBPacket for RequestControllerCountPacket {
    open spec fn command_spec(&self) -> Command {
        Command::RequestControllerCount
    }

    fn command(&self) -> (r: Command) {
        Command::RequestControllerCount
    }
}

/// The server's description of one device: an inner byte count, then the
/// device record.
#[derive(Debug, Clone, PartialEq, Eq)]
pub struct RequestControllerDataPacket {
    pub device: OpenRGBDevice,
}

impl View for RequestControllerDataPacket {
    type V = DeviceModel;

    open spec fn view(&self) -> DeviceModel {
        self.device@
    }
}

pub open spec fn data_body(d: DeviceModel) -> Seq<u8> {
    u32_le(device_le(d).len() as u32) + device_le(d)
}

pub open spec fn data_error(d: DeviceModel) -> Option<OpenRGBError> {
    if device_fits(d) && device_le(d).len() + 4 <= U32_MAX {
        None
    } else {
        Some(OpenRGBError::InputTooLarge)
    }
}

pub open spec fn data_body_at(b: Seq<u8>) -> Result<DeviceModel, OpenRGBError> {
    framed(b, OpenRGBDevice::parse(b, 4))
}

impl RequestControllerDataPacket {
    pub fn new(device: OpenRGBDevice) -> (r: RequestControllerDataPacket)
        ensures
            r@ == device@,
    {
        RequestControllerDataPacket { device }
    }

    pub fn serialize(&self) -> (r: OpenRGBResult<Vec<u8>>)
        ensures
            emits(r, data_error(self@), data_body(self@)),
    {
        let mut dev: Vec<u8> = Vec::new();
        self.device.serialize(&mut dev)?;
        assert(dev@ =~= device_le(self@));
        if dev.len() > U32_MAX - 4 {
            return Err(OpenRGBError::InputTooLarge);
        }
        let mut out: Vec<u8> = Vec::new();
        put_u32(&mut out, dev.len() as u32);
        out.append(&mut dev);
        assert(out@ =~= data_body(self@));
        Ok(out)
    }

    pub fn deserialize(body: &[u8]) -> (r: OpenRGBResult<RequestControllerDataPacket>)
        ensures
            agrees_body(r, data_body_at(body@)),
    {
        check_framed(body)?;
        let (device, end) = OpenRGBDevice::deserialize(body, 4)?;
        if end != body.len() {
            return Err(OpenRGBError::LengthMismatch);
        }
        Ok(RequestControllerDataPacket { device })
    }
}

impl OpenRGBPacket for RequestControllerDataPacket {
    open spec fn command_spec(&self) -> Command {
        Command::RequestControllerData
    }

    fn command(&self) -> (r: Command) {
        Command::RequestControllerData
    }
}

/// Replaces the mode at `mode_id` and switches to it: an inner byte count,
/// the mode id, then the mode record.
#[derive(Debug, Clone, PartialEq, Eq)]
pub struct UpdateModePacket {
    pub mode_id: usize,
    pub mode: OpenRGBMode,
}

impl View for UpdateModePacket {
    type V = (usize, ModeModel);

    open spec fn view(&self) -> (usize, ModeModel) {
        (self.mode_id, self.mode@)
    }
}

pub open spec fn mode_body(v: (usize, ModeModel)) -> Seq<u8> {
    u32_le((4 + mode_le(v.1).len()) as u32) + u32_le(v.0 as u32) + mode_le(v.1)
}

pub open spec fn mode_error(v: (usize, ModeModel)) -> Option<OpenRGBError> {
    if v.0 > U32_MAX {
        Some(OpenRGBError::InvalidId(v.0))
    } else if mode_fits(v.1) && mode_le(v.1).len() + 8 <= U32_MAX {
        None
    } else {
        Some(OpenRGBError::InputTooLarge)
    }
}

pub open spec fn mode_body_at(b: Seq<u8>) -> Result<(usize, ModeModel), OpenRGBError> {
    framed(
        b,
        if !avail(b, 4, 4) {
            Err(OpenRGBError::UnexpectedEndOfData)
        } else {
            match OpenRGBMode::parse(b, 8) {
                Ok((m, q)) => Ok(((u32_val(b, 4) as usize, m), q)),
                Err(e) => Err(e),
            }
        },
    )
}

impl UpdateModePacket {
    pub fn new(mode_id: usize, mode: OpenRGBMode) -> (r: UpdateModePacket)
        ensures
            r@ == (mode_id, mode@),
    {
        UpdateModePacket { mode_id, mode }
    }

    pub fn serialize(&self) -> (r: OpenRGBResult<Vec<u8>>)
        ensures
            emits(r, mode_error(self@), mode_body(self@)),
    {
        if self.mode_id > U32_MAX {
            return Err(OpenRGBError::InvalidId(self.mode_id));
        }
        let mut inner: Vec<u8> = Vec::new();
        put_u32(&mut inner, self.mode_id as u32);
        self.mode.serialize(&mut inner)?;
        assert(inner@ =~= u32_le(self.mode_id as u32) + mode_le(self.mode@));
        if inner.len() > U32_MAX - 4 {
            return Err(OpenRGBError::InputTooLarge);
        }
        let mut out: Vec<u8> = Vec::new();
        put_u32(&mut out, inner.len() as u32);
        out.append(&mut inner);
        assert(out@ =~= mode_body(self@));
        Ok(out)
    }

    pub fn deserialize(body: &[u8]) -> (r: OpenRGBResult<UpdateModePacket>)
        ensures
            agrees_body(r, mode_body_at(body@)),
    {
        check_framed(body)?;
        let (mode_id, _) = get_u32(body, 4)?;
        let (mode, end) = OpenRGBMode::deserialize(body, 8)?;
        if end != body.len() {
            return Err(OpenRGBError::LengthMismatch);
        }
        Ok(UpdateModePacket { mode_id: mode_id as usize, mode })
    }
}

impl OpenRGBPacket for UpdateModePacket {
    open spec fn command_spec(&self) -> Command {
        Command::UpdateMode
    }

    fn command(&self) -> (r: Command) {
        Command::UpdateMode
    }
}

/// Sets every LED of a device, from the first on: an inner byte count, a
/// `u16` color count, then the colors.
#[derive(Debug, Clone, PartialEq, Eq)]
pub struct UpdateLedsPacket {
    pub colors: Vec<OpenRGBColor>,
}

impl View for UpdateLedsPacket {
    type V = Seq<u32>;

    open spec fn view(&self) -> Seq<u32> {
        self.colors@
    }
}

pub open spec fn colors_le(cs: Seq<u32>) -> Seq<u8> {
    u16_le(cs.len() as u16) + u32s_le(cs)
}

pub open spec fn leds_body(cs: Seq<u32>) -> Seq<u8> {
    u32_le(colors_le(cs).len() as u32) + colors_le(cs)
}

pub open spec fn leds_error(cs: Seq<u32>) -> Option<OpenRGBError> {
    if cs.len() <= 65535 {
        None
    } else {
        Some(OpenRGBError::InputTooLarge)
    }
}

/// A `u16` color count, then that many colors.
pub open spec fn colors_at(b: Seq<u8>, p: int) -> Parsed<Seq<u32>> {
    match u16_at(b, p) {
        Ok((n, q)) => u32s_at(b, q, n as nat),
        Err(e) => Err(e),
    }
}

pub open spec fn leds_body_at(b: Seq<u8>) -> Result<Seq<u32>, OpenRGBError> {
    framed(b, colors_at(b, 4))
}

/// Appends a `u16` color count and the colors.
fn put_colors(out: &mut Vec<u8>, cs: &Vec<u32>)
    requires
        cs@.len() <= 65535,
    ensures
        final(out)@ == old(out)@ + colors_le(cs@),
        colors_le(cs@).len() == 2 + 4 * cs@.len(),
{
    put_u16(out, cs.len() as u16);
    put_u32s(out, cs);
    assert(out@ =~= old(out)@ + colors_le(cs@));
    proof {
        lemma_u32s_len(cs@);
    }
}

/// Reads a `u16` color count and the colors.
fn get_colors(b: &[u8], pos: usize) -> (r: OpenRGBResult<(Vec<u32>, usize)>)
    ensures
        crate::wire::agrees(r, colors_at(b@, pos as int)),
{
    let (n, q) = get_u16(b, pos)?;
    get_u32s(b, q, n as usize)
}

impl UpdateLedsPacket {
    pub fn new(colors: Vec<OpenRGBColor>) -> (r: UpdateLedsPacket)
        ensures
            r@ == colors@,
    {
        UpdateLedsPacket { colors }
    }

    pub fn serialize(&self) -> (r: OpenRGBResult<Vec<u8>>)
        ensures
            emits(r, leds_error(self@), leds_body(self@)),
    {
        if self.colors.len() > 65535 {
            return Err(OpenRGBError::InputTooLarge);
        }
        let mut out: Vec<u8> = Vec::new();
        put_u32(&mut out, (2 + 4 * self.colors.len()) as u32);
        put_colors(&mut out, &self.colors);
        assert(out@ =~= leds_body(self@));
        Ok(out)
    }

    pub fn deserialize(body: &[u8]) -> (r: OpenRGBResult<UpdateLedsPacket>)
        ensures
            agrees_body(r, leds_body_at(body@)),
    {
        check_framed(body)?;
        let (colors, end) = get_colors(body, 4)?;
        if end != body.len() {
            return Err(OpenRGBError::LengthMismatch);
        }
        Ok(UpdateLedsPacket { colors })
    }
}

impl OpenRGBPacket for UpdateLedsPacket {
    open spec fn command_spec(&self) -> Command {
        Command::UpdateLeds
    }

    fn command(&self) -> (r: Command) {
        Command::UpdateLeds
    }
}

/// Sets the LEDs of one zone: an inner byte count, the zone id, a `u16`
/// color count, then the colors.
#[derive(Debug, Clone, PartialEq, Eq)]
pub struct UpdateZoneLedsPacket {
    pub zone_id: usize,
    pub colors: Vec<OpenRGBColor>,
}

impl View for UpdateZoneLedsPacket {
    type V = (usize, Seq<u32>);

    open spec fn view(&self) -> (usize, Seq<u32>) {
        (self.zone_id, self.colors@)
    }
}

pub open spec fn zone_leds_body(v: (usize, Seq<u32>)) -> Seq<u8> {
    u32_le((4 + colors_le(v.1).len()) as u32) + u32_le(v.0 as u32) + colors_le(v.1)
}

pub open spec fn zone_leds_error(v: (usize, Seq<u32>)) -> Option<OpenRGBError> {
    if v.0 > U32_MAX {
        Some(OpenRGBError::InvalidId(v.0))
    } else if v.1.len() <= 65535 {
        None
    } else {
        Some(OpenRGBError::InputTooLarge)
    }
}

pub open spec fn zone_leds_body_at(b: Seq<u8>) -> Result<(usize, Seq<u32>), OpenRGBError> {
    framed(
        b,
        if !avail(b, 4, 4) {
            Err(OpenRGBError::UnexpectedEndOfData)
        } else {
            match colors_at(b, 8) {
                Ok((cs, q)) => Ok(((u32_val(b, 4) as usize, cs), q)),
                Err(e) => Err(e),
            }
        },
    )
}

impl UpdateZoneLedsPacket {
    pub fn new(zone_id: usize, colors: Vec<OpenRGBColor>) -> (r: UpdateZoneLedsPacket)
        ensures
            r@ == (zone_id, colors@),
    {
        UpdateZoneLedsPacket { zone_id, colors }
    }

    pub fn serialize(&self) -> (r: OpenRGBResult<Vec<u8>>)
        ensures
            emits(r, zone_leds_error(self@), zone_leds_body(self@)),
    {
        if self.zone_id > U32_MAX {
            return Err(OpenRGBError::InvalidId(self.zone_id));
        }
        if self.colors.len() > 65535 {
            return Err(OpenRGBError::InputTooLarge);
        }
        let mut out: Vec<u8> = Vec::new();
        put_u32(&mut out, (6 + 4 * self.colors.len()) as u32);
        put_u32(&mut out, self.zone_id as u32);
        put_colors(&mut out, &self.colors);
        assert(out@ =~= zone_leds_body(self@));
        Ok(out)
    }

    pub fn deserialize(body: &[u8]) -> (r: OpenRGBResult<UpdateZoneLedsPacket>)
        ensures
            agrees_body(r, zone_leds_body_at(body@)),
    {
        check_framed(body)?;
        let (zone_id, _) = get_u32(body, 4)?;
        let (colors, end) = get_colors(body, 8)?;
        if end != body.len() {
            return Err(OpenRGBError::LengthMismatch);
        }
        Ok(UpdateZoneLedsPacket { zone_id: zone_id as usize, colors })
    }
}

impl OpenRGBPacket for UpdateZoneLedsPacket {
    open spec fn command_spec(&self) -> Command {
        Command::UpdateZoneLeds
    }

    fn command(&self) -> (r: Command) {
        Command::UpdateZoneLeds
    }
}

/// Sets one LED: the LED id, then its color; no inner count.
#[derive(Debug, Clone, PartialEq, Eq)]
pub struct UpdateSingleLedPacket {
    pub led_id: usize,
    pub color: OpenRGBColor,
}

impl View for UpdateSingleLedPacket {
    type V = (usize, u32);

    open spec fn view(&self) -> (usize, u32) {
        (self.led_id, self.color)
    }
}

/// Two `u32` fields: an id, then a value.
pub open spec fn id_pair_body(v: (usize, u32)) -> Seq<u8> {
    u32_le(v.0 as u32) + u32_le(v.1)
}

pub open spec fn id_pair_error(v: (usize, u32)) -> Option<OpenRGBError> {
    if v.0 > U32_MAX {
        Some(OpenRGBError::InvalidId(v.0))
    } else {
        None
    }
}

pub open spec fn id_pair_body_at(b: Seq<u8>) -> Result<(usize, u32), OpenRGBError> {
    if !avail(b, 0, 8) {
        Err(OpenRGBError::UnexpectedEndOfData)
    } else if b.len() != 8 {
        Err(OpenRGBError::LengthMismatch)
    } else {
        Ok((u32_val(b, 0) as usize, u32_val(b, 4)))
    }
}

fn put_id_pair(id: usize, value: u32) -> (r: OpenRGBResult<Vec<u8>>)
    ensures
        emits(r, id_pair_error((id, value)), id_pair_body((id, value))),
{
    if id > U32_MAX {
        return Err(OpenRGBError::InvalidId(id));
    }
    let mut out: Vec<u8> = Vec::new();
    put_u32(&mut out, id as u32);
    put_u32(&mut out, value);
    assert(out@ =~= id_pair_body((id, value)));
    Ok(out)
}

fn get_id_pair(b: &[u8]) -> (r: OpenRGBResult<(usize, u32)>)
    ensures
        match r {
            Ok(v) => id_pair_body_at(b@) == Ok::<(usize, u32), OpenRGBError>(v),
            Err(e) => id_pair_body_at(b@) == Err::<(usize, u32), OpenRGBError>(e),
        },
{
    if b.len() < 8 {
        return Err(OpenRGBError::UnexpectedEndOfData);
    }
    if b.len() != 8 {
        return Err(OpenRGBError::LengthMismatch);
    }
    Ok((read_u32(b, 0) as usize, read_u32(b, 4)))
}

impl UpdateSingleLedPacket {
    pub fn new(led_id: usize, color: OpenRGBColor) -> (r: UpdateSingleLedPacket)
        ensures
            r@ == (led_id, color),
    {
        UpdateSingleLedPacket { led_id, color }
    }

    pub fn serialize(&self) -> (r: OpenRGBResult<Vec<u8>>)
        ensures
            emits(r, id_pair_error(self@), id_pair_body(self@)),
    {
        put_id_pair(self.led_id, self.color)
    }

    pub fn deserialize(body: &[u8]) -> (r: OpenRGBResult<UpdateSingleLedPacket>)
        ensures
            agrees_body(r, id_pair_body_at(body@)),
    {
        let (led_id, color) = get_id_pair(body)?;
        Ok(UpdateSingleLedPacket { led_id, color })
    }
}

impl OpenRGBPacket for UpdateSingleLedPacket {
    open spec fn command_spec(&self) -> Command {
        Command::UpdateSingleLed
    }

    fn command(&self) -> (r: Command) {
        Command::UpdateSingleLed
    }
}

/// Resizes a zone: the zone id, then the new LED count; no inner count.
#[derive(Debug, Clone, PartialEq, Eq)]
pub struct ResizeZonePacket {
    pub zone_id: usize,
    pub new_size: u32,
}

impl View for ResizeZonePacket {
    type V = (usize, u32);

    open spec fn view(&self) -> (usize, u32) {
        (self.zone_id, self.new_size)
    }
}

impl ResizeZonePacket {
    pub fn new(zone_id: usize, new_size: u32) -> (r: ResizeZonePacket)
        ensures
            r@ == (zone_id, new_size),
    {
        ResizeZonePacket { zone_id, new_size }
    }

    pub fn serialize(&self) -> (r: OpenRGBResult<Vec<u8>>)
        ensures
            emits(r, id_pair_error(self@), id_pair_body(self@)),
    {
        put_id_pair(self.zone_id, self.new_size)
    }

    pub fn deserialize(body: &[u8]) -> (r: OpenRGBResult<ResizeZonePacket>)
        ensures
            agrees_body(r, id_pair_body_at(body@)),
    {
        let (zone_id, new_size) = get_id_pair(body)?;
        Ok(ResizeZonePacket { zone_id, new_size })
    }
}

impl OpenRGBPacket for ResizeZonePacket {
    open spec fn command_spec(&self) -> Command {
        Command::ResizeZone
    }

    fn command(&self) -> (r: Command) {
        Command::ResizeZone
    }
}

proof fn lemma_whole_bytes(b: Seq<u8>)
    ensures
        bytes_at(b, 0, b),
{
    assert(b.subrange(0, b.len() as int) =~= b);
}

proof fn lemma_framed_ok<V>(b: Seq<u8>, rest: Parsed<V>, v: V)
    requires
        avail(b, 0, 4),
        u32_val(b, 0) == b.len() - 4,
        rest == Ok::<(V, int), OpenRGBError>((v, b.len() as int)),
    ensures
        framed(b, rest) == Ok::<V, OpenRGBError>(v),
{
}

/// A client name reads back from its body.
pub proof fn lemma_name_body_round_trip(t: Seq<char>)
    ensures
        name_body_at(name_body(t)) == Ok::<Seq<char>, OpenRGBError>(t),
{
    broadcast use vstd::utf8::encode_utf8_valid_utf8, vstd::utf8::encode_utf8_decode_utf8;

}

/// A controller count reads back from its body.
pub proof fn lemma_count_body_round_trip(c: u32)
    ensures
        count_body_at(count_body(c)) == Ok::<u32, OpenRGBError>(c),
{
    lemma_whole_bytes(count_body(c));
    lemma_u32_round_trip(count_body(c), 0, c);
}

/// A valid device that can be written reads back from its controller-data
/// body.
pub proof fn lemma_data_body_round_trip(d: DeviceModel)
    requires
        data_error(d) is None,
        device_valid(d),
    ensures
        data_body_at(data_body(d)) == Ok::<DeviceModel, OpenRGBError>(d),
{
    let b = data_body(d);
    lemma_whole_bytes(b);
    lemma_bytes_at_concat(b, 0, u32_le(device_le(d).len() as u32), device_le(d));
    lemma_u32_round_trip(b, 0, device_le(d).len() as u32);
    lemma_device_round_trip(b, 4, d);
    lemma_framed_ok(b, OpenRGBDevice::parse(b, 4), d);
}

/// A mode update that can be written reads back from its body.
pub proof fn lemma_mode_body_round_trip(v: (usize, ModeModel))
    requires
        mode_error(v) is None,
    ensures
        mode_body_at(mode_body(v)) == Ok::<(usize, ModeModel), OpenRGBError>(v),
{
    let b = mode_body(v);
    let len = u32_le((4 + mode_le(v.1).len()) as u32);
    lemma_whole_bytes(b);
    lemma_bytes_at_concat(b, 0, len + u32_le(v.0 as u32), mode_le(v.1));
    lemma_bytes_at_concat(b, 0, len, u32_le(v.0 as u32));
    lemma_u32_round_trip(b, 0, (4 + mode_le(v.1).len()) as u32);
    lemma_u32_round_trip(b, 4, v.0 as u32);
    lemma_mode_round_trip(b, 8, v.1);
    let rest = if !avail(b, 4, 4) {
        Err(OpenRGBError::UnexpectedEndOfData)
    } else {
        match OpenRGBMode::parse(b, 8) {
            Ok((m, q)) => Ok(((u32_val(b, 4) as usize, m), q)),
            Err(e) => Err(e),
        }
    };
    assert(rest == Ok::<((usize, ModeModel), int), OpenRGBError>((v, b.len() as int)));
    lemma_framed_ok(b, rest, v);
}

proof fn lemma_colors_round_trip(b: Seq<u8>, p: int, cs: Seq<u32>)
    requires
        cs.len() <= 65535,
        bytes_at(b, p, colors_le(cs)),
    ensures
        colors_at(b, p) == Ok::<(Seq<u32>, int), OpenRGBError>((cs, p + 2 + 4 * cs.len())),
        colors_le(cs).len() == 2 + 4 * cs.len(),
{
    lemma_bytes_at_concat(b, p, u16_le(cs.len() as u16), u32s_le(cs));
    lemma_u16_round_trip(b, p, cs.len() as u16);
    lemma_u32s_round_trip(b, p + 2, cs);
    lemma_u32s_len(cs);
}

/// A color list that can be written reads back from its update-leds body.
pub proof fn lemma_leds_body_round_trip(cs: Seq<u32>)
    requires
        leds_error(cs) is None,
    ensures
        leds_body_at(leds_body(cs)) == Ok::<Seq<u32>, OpenRGBError>(cs),
{
    let b = leds_body(cs);
    lemma_whole_bytes(b);
    lemma_bytes_at_concat(b, 0, u32_le(colors_le(cs).len() as u32), colors_le(cs));
    lemma_u32s_len(cs);
    lemma_u32_round_trip(b, 0, colors_le(cs).len() as u32);
    lemma_colors_round_trip(b, 4, cs);
}

/// A zone update that can be written reads back from its body.
pub proof fn lemma_zone_leds_body_round_trip(v: (usize, Seq<u32>))
    requires
        zone_leds_error(v) is None,
    ensures
        zone_leds_body_at(zone_leds_body(v)) == Ok::<(usize, Seq<u32>), OpenRGBError>(v),
{
    let b = zone_leds_body(v);
    let len = u32_le((4 + colors_le(v.1).len()) as u32);
    lemma_whole_bytes(b);
    lemma_bytes_at_concat(b, 0, len + u32_le(v.0 as u32), colors_le(v.1));
    lemma_bytes_at_concat(b, 0, len, u32_le(v.0 as u32));
    lemma_u32s_len(v.1);
    lemma_u32_round_trip(b, 0, (4 + colors_le(v.1).len()) as u32);
    lemma_u32_round_trip(b, 4, v.0 as u32);
    lemma_colors_round_trip(b, 8, v.1);
}

/// An id and a value read back from their body, for a single-LED update and
/// for a zone resize alike.
pub proof fn lemma_id_pair_body_round_trip(v: (usize, u32))
    requires
        id_pair_error(v) is None,
    ensures
        id_pair_body_at(id_pair_body(v)) == Ok::<(usize, u32), OpenRGBError>(v),
{
    let b = id_pair_body(v);
    lemma_whole_bytes(b);
    lemma_bytes_at_concat(b, 0, u32_le(v.0 as u32), u32_le(v.1));
    lemma_u32_round_trip(b, 0, v.0 as u32);
    lemma_u32_round_trip(b, 4, v.1);
}

} // verus!
