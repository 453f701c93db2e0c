//! The structured records of the protocol and their codecs: Led, MatrixMap,
//! Zone, Mode and Device.
use crate::error::{OpenRGBError, OpenRGBResult};
use crate::wire::{
    agrees, avail, bytes_at, concat_all, get_text, get_u16, get_u32s, i32_le, lemma_bytes_at_concat,
    lemma_i32_round_trip, lemma_many_err_extends, lemma_many_len, lemma_many_round_trip,
    lemma_text_round_trip, lemma_u16_round_trip, lemma_u32_round_trip, lemma_u32s_len,
    lemma_u32s_round_trip, many_at, put_i32, put_text, put_u16, put_u32, put_u32s, read_u16,
    read_u32, text_at, text_fits, text_le, u16_at, u16_le, u16_val, u32_at, u32_le, u32_val,
    u32s_at, u32s_le, wrote, Parsed,
};
use vstd::prelude::*;

verus! {

/// A packed RGB value: low byte red, then green, then blue.
pub type OpenRGBColor = u32;

/// The numeric zone kind (linear, matrix, single).
pub type OpenRGBZoneType = u32;

/// A record with a wire encoding: `encoding` is what `serialize` appends
/// when `fits` holds, and `parse` is what `deserialize` reads.
pub trait OpenRGBSendable: View + Sized {
    spec fn fits(v: Self::V) -> bool;

    spec fn encoding(v: Self::V) -> Seq<u8>;

    spec fn parse(s: Seq<u8>, p: int) -> Parsed<Self::V>;

    /// Appends the record's encoding to `out`.
    fn serialize(&self, out: &mut Vec<u8>) -> (r: OpenRGBResult<()>)
        ensures
            wrote(r, old(out)@, final(out)@, Self::fits(self@), Self::encoding(self@)),
    ;

    /// Reads a record at `pos`; returns it with the position after it.
    fn deserialize(data: &[u8], pos: usize) -> (r: OpenRGBResult<(Self, usize)>)
        ensures
            agrees(r, Self::parse(data@, pos as int)),
    ;
}

pub open spec fn views<T: View>(xs: Seq<T>) -> Seq<T::V> {
    xs.map_values(|x: T| x@)
}

pub open spec fn all_fit<T: OpenRGBSendable>(vs: Seq<T::V>) -> bool {
    forall|i: int| 0 <= i < vs.len() ==> T::fits(#[trigger] vs[i])
}

/// The records' encodings one after the other, with no count.
pub open spec fn encode_all<T: OpenRGBSendable>(vs: Seq<T::V>) -> Seq<u8> {
    concat_all(|v: T::V| T::encoding(v), vs)
}

pub open spec fn parse_all<T: OpenRGBSendable>(s: Seq<u8>, p: int, n: nat) -> Parsed<Seq<T::V>> {
    many_at(|s: Seq<u8>, p: int| T::parse(s, p), s, p, n)
}

/// An executable read of several records agrees with the spec-level read.
pub open spec fn agrees_all<T: View>(
    r: Result<(Vec<T>, usize), OpenRGBError>,
    p: Parsed<Seq<T::V>>,
) -> bool {
    match r {
        Ok((v, q)) => p == Ok::<(Seq<T::V>, int), OpenRGBError>((views(v@), q as int)),
        Err(e) => p == Err::<(Seq<T::V>, int), OpenRGBError>(e),
    }
}

/// Appends each record's encoding; if one does not fit, `out` is restored.
fn put_all<T: OpenRGBSendable>(out: &mut Vec<u8>, xs: &Vec<T>) -> (r: OpenRGBResult<()>)
    ensures
        wrote(r, old(out)@, final(out)@, all_fit::<T>(views(xs@)), encode_all::<T>(views(xs@))),
{
    let start = out.len();
    let mut i: usize = 0;
    while i < xs.len()
        invariant
            i <= xs.len(),
            start == old(out)@.len(),
            all_fit::<T>(views(xs@.subrange(0, i as int))),
            out@ == old(out)@ + encode_all::<T>(views(xs@.subrange(0, i as int))),
        decreases xs.len() - i,
    {
        match xs[i].serialize(out) {
            Ok(()) => {},
            Err(e) => {
                out.truncate(start);
                assert(out@ =~= old(out)@);
                assert(views(xs@)[i as int] == xs@[i as int]@);
                return Err(e);
            },
        }
        proof {
            let next = views(xs@.subrange(0, i + 1));
            assert(next.drop_last() =~= views(xs@.subrange(0, i as int)));
            assert(next.last() == xs@[i as int]@);
            assert(out@ =~= old(out)@ + encode_all::<T>(next));
            assert forall|j: int| 0 <= j < next.len() implies T::fits(#[trigger] next[j]) by {
                if j < i {
                    assert(next[j] == views(xs@.subrange(0, i as int))[j]);
                }
            }
        }
        i += 1;
    }
    assert(xs@.subrange(0, xs.len() as int) =~= xs@);
    Ok(())
}

/// Reads `n` records one after the other, starting at `pos`.
fn get_all<T: OpenRGBSendable>(data: &[u8], pos: usize, n: usize) -> (r: OpenRGBResult<
    (Vec<T>, usize),
>)
    ensures
        agrees_all(r, parse_all::<T>(data@, pos as int, n as nat)),
{
    let mut xs: Vec<T> = Vec::new();
    let mut at = pos;
    let mut i: usize = 0;
    assert(views(xs@) =~= Seq::<T::V>::empty());
    while i < n
        invariant
            i <= n,
            parse_all::<T>(data@, pos as int, i as nat) == Ok::<(Seq<T::V>, int), OpenRGBError>(
                (views(xs@), at as int),
            ),
        decreases n - i,
    {
        let (x, next) = match T::deserialize(data, at) {
            Ok(v) => v,
            Err(e) => {
                proof {
                    lemma_many_err_extends(
                        |s: Seq<u8>, p: int| T::parse(s, p),
                        data@,
                        pos as int,
                        (i + 1) as nat,
                        n as nat,
                    );
                }
                return Err(e);
            },
        };
        let ghost old_xs = xs@;
        xs.push(x);
        assert(views(xs@) =~= views(old_xs).push(x@));
        at = next;
        i += 1;
    }
    Ok((xs, at))
}

/// Records that each read back from their encoding read back as a sequence.
pub proof fn lemma_all_round_trip<T: OpenRGBSendable>(s: Seq<u8>, p: int, vs: Seq<T::V>)
    requires
        forall|i: int, q: int|
            0 <= i < vs.len() && #[trigger] bytes_at(s, q, T::encoding(vs[i])) ==> T::parse(s, q)
                == Ok::<(T::V, int), OpenRGBError>((vs[i], q + T::encoding(vs[i]).len())),
        bytes_at(s, p, encode_all::<T>(vs)),
    ensures
        parse_all::<T>(s, p, vs.len()) == Ok::<(Seq<T::V>, int), OpenRGBError>(
            (vs, p + encode_all::<T>(vs).len()),
        ),
{
    let item = |s: Seq<u8>, p: int| T::parse(s, p);
    let enc = |v: T::V| T::encoding(v);
    assert forall|i: int, q: int|
        0 <= i < vs.len() && #[trigger] bytes_at(s, q, enc(vs[i])) implies item(s, q) == Ok::<
            (T::V, int),
            OpenRGBError,
        >((vs[i], q + enc(vs[i]).len())) by {
        assert(bytes_at(s, q, T::encoding(vs[i])));
    }
    lemma_many_round_trip(item, enc, vs, s, p);
}

/// One controllable light element.
#[derive(Debug, Clone, PartialEq, Eq)]
pub struct OpenRGBLed {
    pub name: String,
    pub value: u32,
}

/// The value of a Led, with its texts as characters.
pub struct LedModel {
    pub name: Seq<char>,
    pub value: u32,
}

impl View for OpenRGBLed {
    type V = LedModel;

    open spec fn view(&self) -> LedModel {
        LedModel { name: self.name@, value: self.value }
    }
}

pub open spec fn led_fits(m: LedModel) -> bool {
    text_fits(m.name)
}

/// Name, then raw value.
pub open spec fn led_le(m: LedModel) -> Seq<u8> {
    text_le(m.name) + u32_le(m.value)
}

pub open spec fn led_at(s: Seq<u8>, p: int) -> Parsed<LedModel> {
    match text_at(s, p) {
        Ok((name, q)) => if avail(s, q, 4) {
            Ok((LedModel { name, value: u32_val(s, q) }, q + 4))
        } else {
            Err(OpenRGBError::UnexpectedEndOfData)
        },
        Err(e) => Err(e),
    }
}

/// Every Led whose name fits its count field reads back from its encoding,
/// wherever that encoding stands in a byte sequence.
pub proof fn lemma_led_round_trip(s: Seq<u8>, p: int, m: LedModel)
    requires
        led_fits(m),
        bytes_at(s, p, led_le(m)),
    ensures
        led_at(s, p) == Ok::<(LedModel, int), OpenRGBError>((m, p + led_le(m).len())),
{
    lemma_bytes_at_concat(s, p, text_le(m.name), u32_le(m.value));
    lemma_text_round_trip(s, p, m.name);
    lemma_u32_round_trip(s, p + text_le(m.name).len(), m.value);
}

impl OpenRGBSendable for OpenRGBLed {
    open spec fn fits(v: LedModel) -> bool {
        led_fits(v)
    }

    open spec fn encoding(v: LedModel) -> Seq<u8> {
        led_le(v)
    }

    open spec fn parse(s: Seq<u8>, p: int) -> Parsed<LedModel> {
        led_at(s, p)
    }

    fn serialize(&self, out: &mut Vec<u8>) -> (r: OpenRGBResult<()>) {
        put_text(out, &self.name)?;
        put_u32(out, self.value);
        assert(out@ =~= old(out)@ + led_le(self@));
        Ok(())
    }

    fn deserialize(data: &[u8], pos: usize) -> (r: OpenRGBResult<(OpenRGBLed, usize)>) {
        let (name, q) = get_text(data, pos)?;
        if data.len() - q < 4 {
            return Err(OpenRGBError::UnexpectedEndOfData);
        }
        let value = read_u32(data, q);
        Ok((OpenRGBLed { name, value }, q + 4))
    }
}

/// The 2-D layout of a matrix zone: `map` holds `width * height` cells,
/// row by row.
#[derive(Debug, Clone, PartialEq, Eq)]
pub struct OpenRGBMatrixMap {
    pub height: u32,
    pub width: u32,
    pub map: Vec<u32>,
}

/// The value of a matrix map.
pub struct MatrixModel {
    pub height: u32,
    pub width: u32,
    pub map: Seq<u32>,
}

impl View for OpenRGBMatrixMap {
    type V = MatrixModel;

    open spec fn view(&self) -> MatrixModel {
        MatrixModel { height: self.height, width: self.width, map: self.map@ }
    }
}

/// The map covers the layout exactly.
pub open spec fn matrix_valid(m: MatrixModel) -> bool {
    m.map.len() == m.width * m.height
}

/// Width, height, then the cells, with no count of their own.
pub open spec fn matrix_le(m: MatrixModel) -> Seq<u8> {
    u32_le(m.width) + u32_le(m.height) + u32s_le(m.map)
}

/// The byte length of a matrix block holding `cells` cells.
pub open spec fn matrix_block_len(cells: int) -> int {
    8 + 4 * cells
}

/// Reads a matrix block that its zone declared to be `size` bytes long; the
/// cell count that width and height give must fill exactly that many bytes.
pub open spec fn matrix_block_at(s: Seq<u8>, p: int, size: int) -> Parsed<MatrixModel> {
    if !avail(s, p, 8) {
        Err(OpenRGBError::UnexpectedEndOfData)
    } else {
        let width = u32_val(s, p);
        let height = u32_val(s, p + 4);
        if size != matrix_block_len(width * height) {
            Err(OpenRGBError::LengthMismatch)
        } else {
            match u32s_at(s, p + 8, (width * height) as nat) {
                Ok((map, q)) => Ok((MatrixModel { height, width, map }, q)),
                Err(e) => Err(e),
            }
        }
    }
}

/// A valid matrix map reads back from its encoding, given the block length
/// that a zone writes before it.
pub proof fn lemma_matrix_round_trip(s: Seq<u8>, p: int, m: MatrixModel)
    requires
        matrix_valid(m),
        bytes_at(s, p, matrix_le(m)),
    ensures
        matrix_block_at(s, p, matrix_block_len(m.map.len() as int)) == Ok::<
            (MatrixModel, int),
            OpenRGBError,
        >((m, p + matrix_le(m).len())),
        matrix_le(m).len() == matrix_block_len(m.map.len() as int),
{
    lemma_bytes_at_concat(s, p, u32_le(m.width) + u32_le(m.height), u32s_le(m.map));
    lemma_bytes_at_concat(s, p, u32_le(m.width), u32_le(m.height));
    lemma_u32_round_trip(s, p, m.width);
    lemma_u32_round_trip(s, p + 4, m.height);
    lemma_u32s_round_trip(s, p + 8, m.map);
    lemma_u32s_len(m.map);
}

/// Every matrix map that reads successfully covers its layout exactly: a
/// 4 by 2 map holds 8 cells.
pub proof fn lemma_decoded_matrix_valid(s: Seq<u8>, p: int, size: int)
    requires
        matrix_block_at(s, p, size) is Ok,
    ensures
        matrix_valid(matrix_block_at(s, p, size)->Ok_0.0),
{
    let width = u32_val(s, p);
    let height = u32_val(s, p + 4);
    lemma_many_len(|s: Seq<u8>, p: int| u32_at(s, p), s, p + 8, (width * height) as nat);
}

impl OpenRGBMatrixMap {
    /// Appends the map's encoding to `out`.
    pub fn serialize(&self, out: &mut Vec<u8>)
        ensures
            final(out)@ == old(out)@ + matrix_le(self@),
    {
        put_u32(out, self.width);
        put_u32(out, self.height);
        put_u32s(out, &self.map);
        assert(out@ =~= old(out)@ + matrix_le(self@));
    }

    /// Reads a matrix block of `block_len` bytes at `pos`.
    pub fn deserialize(data: &[u8], pos: usize, block_len: u16) -> (r: OpenRGBResult<
        (OpenRGBMatrixMap, usize),
    >)
        ensures
            agrees(r, matrix_block_at(data@, pos as int, block_len as int)),
    {
        if pos > data.len() || data.len() - pos < 8 {
            return Err(OpenRGBError::UnexpectedEndOfData);
        }
        let width = read_u32(data, pos);
        let height = read_u32(data, pos + 4);
        proof {
            assert(width * height <= 0xFFFF_FFFFu64 * 0xFFFF_FFFFu64) by (nonlinear_arith)
                requires
                    width <= 0xFFFF_FFFFu64,
                    height <= 0xFFFF_FFFFu64,
            ;
        }
        if block_len < 8 || (block_len - 8) % 4 != 0 || (width as u64) * (height as u64) != ((
        block_len - 8) / 4) as u64 {
            return Err(OpenRGBError::LengthMismatch);
        }
        let cells = ((block_len - 8) / 4) as usize;
        let (map, q) = get_u32s(data, pos + 8, cells)?;
        Ok((OpenRGBMatrixMap { height, width, map }, q))
    }
}

/// A grouping of LEDs, with an optional matrix layout.
#[derive(Debug, Clone, PartialEq, Eq)]
pub struct OpenRGBZone {
    pub name: String,
    pub zone_type: OpenRGBZoneType,
    pub leds_count: u32,
    pub leds_min: u32,
    pub leds_max: u32,
    pub matrix_map: Option<OpenRGBMatrixMap>,
}

/// The value of a Zone, with its texts as characters.
pub struct ZoneModel {
    pub name: Seq<char>,
    pub zone_type: u32,
    pub leds_count: u32,
    pub leds_min: u32,
    pub leds_max: u32,
    pub matrix_map: Option<MatrixModel>,
}

impl View for OpenRGBZone {
    type V = ZoneModel;

    open spec fn view(&self) -> ZoneModel {
        ZoneModel {
            name: self.name@,
            zone_type: self.zone_type,
            leds_count: self.leds_count,
            leds_min: self.leds_min,
            leds_max: self.leds_max,
            matrix_map: match self.matrix_map {
                Some(m) => Some(m@),
                None => None,
            },
        }
    }
}

/// The name and the matrix block fit their `u16` byte counts.
pub open spec fn zone_fits(z: ZoneModel) -> bool {
    &&& text_fits(z.name)
    &&& match z.matrix_map {
        Some(m) => matrix_block_len(m.map.len() as int) <= 65535,
        None => true,
    }
}

pub open spec fn zone_valid(z: ZoneModel) -> bool {
    match z.matrix_map {
        Some(m) => matrix_valid(m),
        None => true,
    }
}

/// A `u16` byte count, then the matrix block; a count of 0 when absent.
pub open spec fn matrix_part_le(mm: Option<MatrixModel>) -> Seq<u8> {
    match mm {
        Some(m) => u16_le(matrix_block_len(m.map.len() as int) as u16) + matrix_le(m),
        None => u16_le(0),
    }
}

/// Name, kind, min, max and count of LEDs, then the matrix part.
pub open spec fn zone_le(z: ZoneModel) -> Seq<u8> {
    text_le(z.name) + u32_le(z.zone_type) + u32_le(z.leds_min) + u32_le(z.leds_max) + u32_le(
        z.leds_count,
    ) + matrix_part_le(z.matrix_map)
}

pub open spec fn zone_at(s: Seq<u8>, p: int) -> Parsed<ZoneModel> {
    match text_at(s, p) {
        Ok((name, q)) => if !avail(s, q, 18) {
            Err(OpenRGBError::UnexpectedEndOfData)
        } else {
            let size = u16_val(s, q + 16);
            let zone = ZoneModel {
                name,
                zone_type: u32_val(s, q),
                leds_min: u32_val(s, q + 4),
                leds_max: u32_val(s, q + 8),
                leds_count: u32_val(s, q + 12),
                matrix_map: None,
            };
            if size == 0 {
                Ok((zone, q + 18))
            } else {
                match matrix_block_at(s, q + 18, size as int) {
                    Ok((m, r)) => Ok((ZoneModel { matrix_map: Some(m), ..zone }, r)),
                    Err(e) => Err(e),
                }
            }
        },
        Err(e) => Err(e),
    }
}

/// A valid Zone that fits its count fields reads back from its encoding,
/// with or without a matrix map.
pub proof fn lemma_zone_round_trip(s: Seq<u8>, p: int, z: ZoneModel)
    requires
        zone_fits(z),
        zone_valid(z),
        bytes_at(s, p, zone_le(z)),
    ensures
        zone_at(s, p) == Ok::<(ZoneModel, int), OpenRGBError>((z, p + zone_le(z).len())),
{
    let t = text_le(z.name);
    let h1 = t + u32_le(z.zone_type);
    let h2 = h1 + u32_le(z.leds_min);
    let h3 = h2 + u32_le(z.leds_max);
    let h4 = h3 + u32_le(z.leds_count);
    lemma_bytes_at_concat(s, p, h4, matrix_part_le(z.matrix_map));
    lemma_bytes_at_concat(s, p, h3, u32_le(z.leds_count));
    lemma_bytes_at_concat(s, p, h2, u32_le(z.leds_max));
    lemma_bytes_at_concat(s, p, h1, u32_le(z.leds_min));
    lemma_bytes_at_concat(s, p, t, u32_le(z.zone_type));
    let q = p + t.len();
    lemma_text_round_trip(s, p, z.name);
    lemma_u32_round_trip(s, q, z.zone_type);
    lemma_u32_round_trip(s, q + 4, z.leds_min);
    lemma_u32_round_trip(s, q + 8, z.leds_max);
    lemma_u32_round_trip(s, q + 12, z.leds_count);
    match z.matrix_map {
        Some(m) => {
            let n = matrix_block_len(m.map.len() as int) as u16;
            lemma_bytes_at_concat(s, q + 16, u16_le(n), matrix_le(m));
            lemma_u16_round_trip(s, q + 16, n);
            lemma_matrix_round_trip(s, q + 18, m);
        },
        None => {
            lemma_u16_round_trip(s, q + 16, 0);
        },
    }
}

/// A zone whose matrix byte count is 0 reads with no matrix map; one that
/// reads with a map has a valid one.
pub proof fn lemma_zone_matrix_presence(s: Seq<u8>, p: int)
    requires
        zone_at(s, p) is Ok,
    ensures
        ({
            let q = text_at(s, p)->Ok_0.1;
            let z = zone_at(s, p)->Ok_0.0;
            &&& u16_val(s, q + 16) == 0 ==> z.matrix_map is None
            &&& u16_val(s, q + 16) != 0 ==> z.matrix_map is Some
            &&& zone_valid(z)
        }),
{
    let q = text_at(s, p)->Ok_0.1;
    if u16_val(s, q + 16) != 0 {
        lemma_decoded_matrix_valid(s, q + 18, u16_val(s, q + 16) as int);
    }
}

impl OpenRGBSendable for OpenRGBZone {
    open spec fn fits(v: ZoneModel) -> bool {
        zone_fits(v)
    }

    open spec fn encoding(v: ZoneModel) -> Seq<u8> {
        zone_le(v)
    }

    open spec fn parse(s: Seq<u8>, p: int) -> Parsed<ZoneModel> {
        zone_at(s, p)
    }

    fn serialize(&self, out: &mut Vec<u8>) -> (r: OpenRGBResult<()>) {
        if let Some(m) = &self.matrix_map {
            if m.map.len() > 16381 {
                return Err(OpenRGBError::InputTooLarge);
            }
        }
        put_text(out, &self.name)?;
        put_u32(out, self.zone_type);
        put_u32(out, self.leds_min);
        put_u32(out, self.leds_max);
        put_u32(out, self.leds_count);
        match &self.matrix_map {
            Some(m) => {
                put_u16(out, (8 + 4 * m.map.len()) as u16);
                m.serialize(out);
            },
            None => {
                put_u16(out, 0);
            },
        }
        assert(out@ =~= old(out)@ + zone_le(self@));
        Ok(())
    }

    fn deserialize(data: &[u8], pos: usize) -> (r: OpenRGBResult<(OpenRGBZone, usize)>) {
        let (name, q) = get_text(data, pos)?;
        if data.len() - q < 18 {
            return Err(OpenRGBError::UnexpectedEndOfData);
        }
        let zone_type = read_u32(data, q);
        let leds_min = read_u32(data, q + 4);
        let leds_max = read_u32(data, q + 8);
        let leds_count = read_u32(data, q + 12);
        let size = read_u16(data, q + 16);
        if size == 0 {
            let zone = OpenRGBZone { name, zone_type, leds_count, leds_min, leds_max, matrix_map: None };
            return Ok((zone, q + 18));
        }
        let (m, r) = OpenRGBMatrixMap::deserialize(data, q + 18, size)?;
        let zone = OpenRGBZone { name, zone_type, leds_count, leds_min, leds_max, matrix_map: Some(m) };
        Ok((zone, r))
    }
}

/// A lighting effect of a device, with its parameters and colors.
#[derive(Debug, Clone, PartialEq, Eq)]
pub struct OpenRGBMode {
    pub name: String,
    pub value: i32,
    pub flags: u32,
    pub speed_min: u32,
    pub speed_max: u32,
    pub colors_min: u32,
    pub colors_max: u32,
    pub speed: u32,
    pub direction: u32,
    pub color_mode: u32,
    pub colors: Vec<OpenRGBColor>,
}

/// The value of a Mode, with its texts as characters.
pub struct ModeModel {
    pub name: Seq<char>,
    pub value: i32,
    pub flags: u32,
    pub speed_min: u32,
    pub speed_max: u32,
    pub colors_min: u32,
    pub colors_max: u32,
    pub speed: u32,
    pub direction: u32,
    pub color_mode: u32,
    pub colors: Seq<u32>,
}

impl View for OpenRGBMode {
    type V = ModeModel;

    open spec fn view(&self) -> ModeModel {
        ModeModel {
            name: self.name@,
            value: self.value,
            flags: self.flags,
            speed_min: self.speed_min,
            speed_max: self.speed_max,
            colors_min: self.colors_min,
            colors_max: self.colors_max,
            speed: self.speed,
            direction: self.direction,
            color_mode: self.color_mode,
            colors: self.colors@,
        }
    }
}

/// The name and the color list fit their `u16` counts.
pub open spec fn mode_fits(m: ModeModel) -> bool {
    text_fits(m.name) && m.colors.len() <= 65535
}

/// Name, value, flags, speed range, color-count range, speed, direction,
/// color mode, then a `u16` color count and the colors.
pub open spec fn mode_le(m: ModeModel) -> Seq<u8> {
    text_le(m.name) + i32_le(m.value) + u32_le(m.flags) + u32_le(m.speed_min) + u32_le(
        m.speed_max,
    ) + u32_le(m.colors_min) + u32_le(m.colors_max) + u32_le(m.speed) + u32_le(m.direction)
        + u32_le(m.color_mode) + u16_le(m.colors.len() as u16) + u32s_le(m.colors)
}

#[verifier::opaque]
pub open spec fn mode_at(s: Seq<u8>, p: int) -> Parsed<ModeModel> {
    match text_at(s, p) {
        Ok((name, q)) => if !avail(s, q, 38) {
            Err(OpenRGBError::UnexpectedEndOfData)
        } else {
            match u32s_at(s, q + 38, u16_val(s, q + 36) as nat) {
                Ok((colors, r)) => Ok(
                    (
                        ModeModel {
                            name,
                            value: u32_val(s, q) as i32,
                            flags: u32_val(s, q + 4),
                            speed_min: u32_val(s, q + 8),
                            speed_max: u32_val(s, q + 12),
                            colors_min: u32_val(s, q + 16),
                            colors_max: u32_val(s, q + 20),
                            speed: u32_val(s, q + 24),
                            direction: u32_val(s, q + 28),
                            color_mode: u32_val(s, q + 32),
                            colors,
                        },
                        r,
                    ),
                ),
                Err(e) => Err(e),
            }
        },
        Err(e) => Err(e),
    }
}

/// Every Mode that fits its count fields reads back from its encoding,
/// an empty color list included.
pub proof fn lemma_mode_round_trip(s: Seq<u8>, p: int, m: ModeModel)
    requires
        mode_fits(m),
        bytes_at(s, p, mode_le(m)),
    ensures
        mode_at(s, p) == Ok::<(ModeModel, int), OpenRGBError>((m, p + mode_le(m).len())),
{
    reveal(mode_at);
    let t = text_le(m.name);
    let h1 = t + i32_le(m.value);
    let h2 = h1 + u32_le(m.flags);
    let h3 = h2 + u32_le(m.speed_min);
    let h4 = h3 + u32_le(m.speed_max);
    let h5 = h4 + u32_le(m.colors_min);
    let h6 = h5 + u32_le(m.colors_max);
    let h7 = h6 + u32_le(m.speed);
    let h8 = h7 + u32_le(m.direction);
    let h9 = h8 + u32_le(m.color_mode);
    let h10 = h9 + u16_le(m.colors.len() as u16);
    lemma_bytes_at_concat(s, p, h10, u32s_le(m.colors));
    lemma_bytes_at_concat(s, p, h9, u16_le(m.colors.len() as u16));
    lemma_bytes_at_concat(s, p, h8, u32_le(m.color_mode));
    lemma_bytes_at_concat(s, p, h7, u32_le(m.direction));
    lemma_bytes_at_concat(s, p, h6, u32_le(m.speed));
    lemma_bytes_at_concat(s, p, h5, u32_le(m.colors_max));
    lemma_bytes_at_concat(s, p, h4, u32_le(m.colors_min));
    lemma_bytes_at_concat(s, p, h3, u32_le(m.speed_max));
    lemma_bytes_at_concat(s, p, h2, u32_le(m.speed_min));
    lemma_bytes_at_concat(s, p, h1, u32_le(m.flags));
    lemma_bytes_at_concat(s, p, t, i32_le(m.value));
    let q = p + t.len();
    lemma_text_round_trip(s, p, m.name);
    lemma_i32_round_trip(s, q, m.value);
    lemma_u32_round_trip(s, q + 4, m.flags);
    lemma_u32_round_trip(s, q + 8, m.speed_min);
    lemma_u32_round_trip(s, q + 12, m.speed_max);
    lemma_u32_round_trip(s, q + 16, m.colors_min);
    lemma_u32_round_trip(s, q + 20, m.colors_max);
    lemma_u32_round_trip(s, q + 24, m.speed);
    lemma_u32_round_trip(s, q + 28, m.direction);
    lemma_u32_round_trip(s, q + 32, m.color_mode);
    lemma_u16_round_trip(s, q + 36, m.colors.len() as u16);
    lemma_u32s_round_trip(s, q + 38, m.colors);
    lemma_u32s_len(m.colors);
}

impl OpenRGBSendable for OpenRGBMode {
    open spec fn fits(v: ModeModel) -> bool {
        mode_fits(v)
    }

    open spec fn encoding(v: ModeModel) -> Seq<u8> {
        mode_le(v)
    }

    open spec fn parse(s: Seq<u8>, p: int) -> Parsed<ModeModel> {
        mode_at(s, p)
    }

    fn serialize(&self, out: &mut Vec<u8>) -> (r: OpenRGBResult<()>) {
        if self.colors.len() > 65535 {
            return Err(OpenRGBError::InputTooLarge);
        }
        put_text(out, &self.name)?;
        put_i32(out, self.value);
        put_u32(out, self.flags);
        put_u32(out, self.speed_min);
        put_u32(out, self.speed_max);
        put_u32(out, self.colors_min);
        put_u32(out, self.colors_max);
        put_u32(out, self.speed);
        put_u32(out, self.direction);
        put_u32(out, self.color_mode);
        put_u16(out, self.colors.len() as u16);
        put_u32s(out, &self.colors);
        assert(out@ =~= old(out)@ + mode_le(self@));
        Ok(())
    }

    fn deserialize(data: &[u8], pos: usize) -> (r: OpenRGBResult<(OpenRGBMode, usize)>) {
        reveal(mode_at);
        let (name, q) = get_text(data, pos)?;
        if data.len() - q < 38 {
            return Err(OpenRGBError::UnexpectedEndOfData);
        }
        let count = read_u16(data, q + 36);
        let (colors, r) = get_u32s(data, q + 38, count as usize)?;
        let mode = OpenRGBMode {
            name,
            value: read_u32(data, q) as i32,
            flags: read_u32(data, q + 4),
            speed_min: read_u32(data, q + 8),
            speed_max: read_u32(data, q + 12),
            colors_min: read_u32(data, q + 16),
            colors_max: read_u32(data, q + 20),
            speed: read_u32(data, q + 24),
            direction: read_u32(data, q + 28),
            color_mode: read_u32(data, q + 32),
            colors,
        };
        Ok((mode, r))
    }
}

/// A controllable RGB peripheral as the server describes it.
#[derive(Debug, Clone, PartialEq, Eq)]
pub struct OpenRGBDevice {
    pub name: String,
    pub description: String,
    pub version: String,
    pub serial: String,
    pub location: String,
    pub leds: Vec<OpenRGBLed>,
    pub zones: Vec<OpenRGBZone>,
    pub modes: Vec<OpenRGBMode>,
    pub colors: Vec<OpenRGBColor>,
    pub device_type: u32,
    pub active_mode: i32,
}

/// The value of a Device, with its texts as characters.
pub struct DeviceModel {
    pub name: Seq<char>,
    pub description: Seq<char>,
    pub version: Seq<char>,
    pub serial: Seq<char>,
    pub location: Seq<char>,
    pub leds: Seq<LedModel>,
    pub zones: Seq<ZoneModel>,
    pub modes: Seq<ModeModel>,
    pub colors: Seq<u32>,
    pub device_type: u32,
    pub active_mode: i32,
}

impl View for OpenRGBDevice {
    type V = DeviceModel;

    open spec fn view(&self) -> DeviceModel {
        DeviceModel {
            name: self.name@,
            description: self.description@,
            version: self.version@,
            serial: self.serial@,
            location: self.location@,
            leds: views(self.leds@),
            zones: views(self.zones@),
            modes: views(self.modes@),
            colors: self.colors@,
            device_type: self.device_type,
            active_mode: self.active_mode,
        }
    }
}

/// Every text, every collection count and every element fits its field.
pub open spec fn device_fits(d: DeviceModel) -> bool {
    &&& text_fits(d.name)
    &&& text_fits(d.description)
    &&& text_fits(d.version)
    &&& text_fits(d.serial)
    &&& text_fits(d.location)
    &&& d.modes.len() <= 65535
    &&& d.zones.len() <= 65535
    &&& d.leds.len() <= 65535
    &&& d.colors.len() <= 65535
    &&& all_fit::<OpenRGBMode>(d.modes)
    &&& all_fit::<OpenRGBZone>(d.zones)
    &&& all_fit::<OpenRGBLed>(d.leds)
}

/// Every zone's matrix map covers its layout.
pub open spec fn device_valid(d: DeviceModel) -> bool {
    forall|i: int| 0 <= i < d.zones.len() ==> zone_valid(#[trigger] d.zones[i])
}

/// Device type, then name, description, version, serial and location.
pub open spec fn device_head_le(d: DeviceModel) -> Seq<u8> {
    u32_le(d.device_type) + text_le(d.name) + text_le(d.description) + text_le(d.version)
        + text_le(d.serial) + text_le(d.location)
}

/// The mode count, the active mode index, then the modes.
pub open spec fn device_modes_le(d: DeviceModel) -> Seq<u8> {
    u16_le(d.modes.len() as u16) + i32_le(d.active_mode) + encode_all::<OpenRGBMode>(d.modes)
}

pub open spec fn device_zones_le(d: DeviceModel) -> Seq<u8> {
    u16_le(d.zones.len() as u16) + encode_all::<OpenRGBZone>(d.zones)
}

pub open spec fn device_leds_le(d: DeviceModel) -> Seq<u8> {
    u16_le(d.leds.len() as u16) + encode_all::<OpenRGBLed>(d.leds)
}

pub open spec fn device_colors_le(d: DeviceModel) -> Seq<u8> {
    u16_le(d.colors.len() as u16) + u32s_le(d.colors)
}

/// The head, the modes after their count and the active mode index, then
/// zones, LEDs and colors, each after its `u16` element count.
pub open spec fn device_le(d: DeviceModel) -> Seq<u8> {
    device_head_le(d) + device_modes_le(d) + device_zones_le(d) + device_leds_le(d)
        + device_colors_le(d)
}

/// Reads the head of a device: the result holds no collections yet.
#[verifier::opaque]
pub open spec fn device_head_at(s: Seq<u8>, p: int) -> Parsed<DeviceModel> {
    if !avail(s, p, 4) {
        Err(OpenRGBError::UnexpectedEndOfData)
    } else {
        match text_at(s, p + 4) {
            Ok((name, q1)) => match text_at(s, q1) {
                Ok((description, q2)) => match text_at(s, q2) {
                    Ok((version, q3)) => match text_at(s, q3) {
                        Ok((serial, q4)) => match text_at(s, q4) {
                            Ok((location, q5)) => Ok(
                                (
                                    DeviceModel {
                                        name,
                                        description,
                                        version,
                                        serial,
                                        location,
                                        leds: Seq::empty(),
                                        zones: Seq::empty(),
                                        modes: Seq::empty(),
                                        colors: Seq::empty(),
                                        device_type: u32_val(s, p),
                                        active_mode: 0,
                                    },
                                    q5,
                                ),
                            ),
                            Err(e) => Err(e),
                        },
                        Err(e) => Err(e),
                    },
                    Err(e) => Err(e),
                },
                Err(e) => Err(e),
            },
            Err(e) => Err(e),
        }
    }
}

/// Reads the mode count, the active mode index and the modes into `d`.
#[verifier::opaque]
pub open spec fn device_modes_at(s: Seq<u8>, q: int, d: DeviceModel) -> Parsed<DeviceModel> {
    if !avail(s, q, 6) {
        Err(OpenRGBError::UnexpectedEndOfData)
    } else {
        match parse_all::<OpenRGBMode>(s, q + 6, u16_val(s, q) as nat) {
            Ok((modes, r)) => Ok(
                (DeviceModel { active_mode: u32_val(s, q + 2) as i32, modes, ..d }, r),
            ),
            Err(e) => Err(e),
        }
    }
}

#[verifier::opaque]
pub open spec fn device_zones_at(s: Seq<u8>, q: int, d: DeviceModel) -> Parsed<DeviceModel> {
    match u16_at(s, q) {
        Ok((n, q1)) => match parse_all::<OpenRGBZone>(s, q1, n as nat) {
            Ok((zones, r)) => Ok((DeviceModel { zones, ..d }, r)),
            Err(e) => Err(e),
        },
        Err(e) => Err(e),
    }
}

#[verifier::opaque]
pub open spec fn device_leds_at(s: Seq<u8>, q: int, d: DeviceModel) -> Parsed<DeviceModel> {
    match u16_at(s, q) {
        Ok((n, q1)) => match parse_all::<OpenRGBLed>(s, q1, n as nat) {
            Ok((leds, r)) => Ok((DeviceModel { leds, ..d }, r)),
            Err(e) => Err(e),
        },
        Err(e) => Err(e),
    }
}

#[verifier::opaque]
pub open spec fn device_colors_at(s: Seq<u8>, q: int, d: DeviceModel) -> Parsed<DeviceModel> {
    match u16_at(s, q) {
        Ok((n, q1)) => match u32s_at(s, q1, n as nat) {
            Ok((colors, r)) => Ok((DeviceModel { colors, ..d }, r)),
            Err(e) => Err(e),
        },
        Err(e) => Err(e),
    }
}

/// The head, then modes, zones, LEDs and colors, each stage reading on from
/// where the previous one stopped.
#[verifier::opaque]
pub open spec fn device_at(s: Seq<u8>, p: int) -> Parsed<DeviceModel> {
    match device_head_at(s, p) {
        Ok((d0, q0)) => match device_modes_at(s, q0, d0) {
            Ok((d1, q1)) => match device_zones_at(s, q1, d1) {
                Ok((d2, q2)) => match device_leds_at(s, q2, d2) {
                    Ok((d3, q3)) => device_colors_at(s, q3, d3),
                    Err(e) => Err(e),
                },
                Err(e) => Err(e),
            },
            Err(e) => Err(e),
        },
        Err(e) => Err(e),
    }
}

proof fn lemma_device_head_round_trip(s: Seq<u8>, p: int, d: DeviceModel)
    requires
        device_fits(d),
        bytes_at(s, p, device_head_le(d)),
    ensures
        device_head_at(s, p) matches Ok((h, q)) && q == p + device_head_le(d).len() && h.name
            == d.name && h.description == d.description && h.version == d.version && h.serial
            == d.serial && h.location == d.location && h.device_type == d.device_type,
{
    reveal(device_head_at);
    let a = u32_le(d.device_type);
    let h1 = a + text_le(d.name);
    let h2 = h1 + text_le(d.description);
    let h3 = h2 + text_le(d.version);
    let h4 = h3 + text_le(d.serial);
    lemma_bytes_at_concat(s, p, h4, text_le(d.location));
    lemma_bytes_at_concat(s, p, h3, text_le(d.serial));
    lemma_bytes_at_concat(s, p, h2, text_le(d.version));
    lemma_bytes_at_concat(s, p, h1, text_le(d.description));
    lemma_bytes_at_concat(s, p, a, text_le(d.name));
    let q1 = p + 4 + text_le(d.name).len();
    let q2 = q1 + text_le(d.description).len();
    let q3 = q2 + text_le(d.version).len();
    let q4 = q3 + text_le(d.serial).len();
    lemma_u32_round_trip(s, p, d.device_type);
    lemma_text_round_trip(s, p + 4, d.name);
    lemma_text_round_trip(s, q1, d.description);
    lemma_text_round_trip(s, q2, d.version);
    lemma_text_round_trip(s, q3, d.serial);
    lemma_text_round_trip(s, q4, d.location);
}

proof fn lemma_device_modes_round_trip(s: Seq<u8>, q: int, x: DeviceModel, d: DeviceModel)
    requires
        device_fits(d),
        bytes_at(s, q, device_modes_le(d)),
    ensures
        device_modes_at(s, q, x) == Ok::<(DeviceModel, int), OpenRGBError>(
            (DeviceModel { active_mode: d.active_mode, modes: d.modes, ..x }, q + device_modes_le(d).len()),
        ),
{
    reveal(device_modes_at);
    let a = u16_le(d.modes.len() as u16);
    lemma_bytes_at_concat(s, q, a + i32_le(d.active_mode), encode_all::<OpenRGBMode>(d.modes));
    lemma_bytes_at_concat(s, q, a, i32_le(d.active_mode));
    lemma_u16_round_trip(s, q, d.modes.len() as u16);
    lemma_i32_round_trip(s, q + 2, d.active_mode);
    assert forall|i: int, r: int|
        0 <= i < d.modes.len() && #[trigger] bytes_at(s, r, OpenRGBMode::encoding(d.modes[i]))
            implies OpenRGBMode::parse(s, r) == Ok::<(ModeModel, int), OpenRGBError>(
        (d.modes[i], r + OpenRGBMode::encoding(d.modes[i]).len()),
    ) by {
        assert(mode_fits(d.modes[i]));
        lemma_mode_round_trip(s, r, d.modes[i]);
    }
    lemma_all_round_trip::<OpenRGBMode>(s, q + 6, d.modes);
}

proof fn lemma_device_zones_round_trip(s: Seq<u8>, q: int, x: DeviceModel, d: DeviceModel)
    requires
        device_fits(d),
        device_valid(d),
        bytes_at(s, q, device_zones_le(d)),
    ensures
        device_zones_at(s, q, x) == Ok::<(DeviceModel, int), OpenRGBError>(
            (DeviceModel { zones: d.zones, ..x }, q + device_zones_le(d).len()),
        ),
{
    reveal(device_zones_at);
    lemma_bytes_at_concat(s, q, u16_le(d.zones.len() as u16), encode_all::<OpenRGBZone>(d.zones));
    lemma_u16_round_trip(s, q, d.zones.len() as u16);
    assert forall|i: int, r: int|
        0 <= i < d.zones.len() && #[trigger] bytes_at(s, r, OpenRGBZone::encoding(d.zones[i]))
            implies OpenRGBZone::parse(s, r) == Ok::<(ZoneModel, int), OpenRGBError>(
        (d.zones[i], r + OpenRGBZone::encoding(d.zones[i]).len()),
    ) by {
        assert(zone_fits(d.zones[i]));
        assert(zone_valid(d.zones[i]));
        lemma_zone_round_trip(s, r, d.zones[i]);
    }
    lemma_all_round_trip::<OpenRGBZone>(s, q + 2, d.zones);
}

proof fn lemma_device_leds_round_trip(s: Seq<u8>, q: int, x: DeviceModel, d: DeviceModel)
    requires
        device_fits(d),
        bytes_at(s, q, device_leds_le(d)),
    ensures
        device_leds_at(s, q, x) == Ok::<(DeviceModel, int), OpenRGBError>(
            (DeviceModel { leds: d.leds, ..x }, q + device_leds_le(d).len()),
        ),
{
    reveal(device_leds_at);
    lemma_bytes_at_concat(s, q, u16_le(d.leds.len() as u16), encode_all::<OpenRGBLed>(d.leds));
    lemma_u16_round_trip(s, q, d.leds.len() as u16);
    assert forall|i: int, r: int|
        0 <= i < d.leds.len() && #[trigger] bytes_at(s, r, OpenRGBLed::encoding(d.leds[i]))
            implies OpenRGBLed::parse(s, r) == Ok::<(LedModel, int), OpenRGBError>(
        (d.leds[i], r + OpenRGBLed::encoding(d.leds[i]).len()),
    ) by {
        assert(led_fits(d.leds[i]));
        lemma_led_round_trip(s, r, d.leds[i]);
    }
    lemma_all_round_trip::<OpenRGBLed>(s, q + 2, d.leds);
}

proof fn lemma_device_colors_round_trip(s: Seq<u8>, q: int, x: DeviceModel, d: DeviceModel)
    requires
        device_fits(d),
        bytes_at(s, q, device_colors_le(d)),
    ensures
        device_colors_at(s, q, x) == Ok::<(DeviceModel, int), OpenRGBError>(
            (DeviceModel { colors: d.colors, ..x }, q + device_colors_le(d).len()),
        ),
{
    reveal(device_colors_at);
    lemma_bytes_at_concat(s, q, u16_le(d.colors.len() as u16), u32s_le(d.colors));
    lemma_u16_round_trip(s, q, d.colors.len() as u16);
    lemma_u32s_round_trip(s, q + 2, d.colors);
    lemma_u32s_len(d.colors);
}

/// Every valid Device that fits its count fields reads back from its
/// encoding, each collection in its order, empty collections included.
#[verifier::spinoff_prover]
pub proof fn lemma_device_round_trip(s: Seq<u8>, p: int, d: DeviceModel)
    requires
        device_fits(d),
        device_valid(d),
        bytes_at(s, p, device_le(d)),
    ensures
        device_at(s, p) == Ok::<(DeviceModel, int), OpenRGBError>((d, p + device_le(d).len())),
{
    reveal(device_at);
    let head = device_head_le(d);
    let ms = device_modes_le(d);
    let zs = device_zones_le(d);
    let ls = device_leds_le(d);
    let cs = device_colors_le(d);
    lemma_bytes_at_concat(s, p, head + ms + zs + ls, cs);
    lemma_bytes_at_concat(s, p, head + ms + zs, ls);
    lemma_bytes_at_concat(s, p, head + ms, zs);
    lemma_bytes_at_concat(s, p, head, ms);
    let q0 = p + head.len();
    let q1 = q0 + ms.len();
    let q2 = q1 + zs.len();
    let q3 = q2 + ls.len();
    lemma_device_head_round_trip(s, p, d);
    let d0 = device_head_at(s, p)->Ok_0.0;
    lemma_device_modes_round_trip(s, q0, d0, d);
    let d1 = DeviceModel { active_mode: d.active_mode, modes: d.modes, ..d0 };
    lemma_device_zones_round_trip(s, q1, d1, d);
    let d2 = DeviceModel { zones: d.zones, ..d1 };
    lemma_device_leds_round_trip(s, q2, d2, d);
    let d3 = DeviceModel { leds: d.leds, ..d2 };
    lemma_device_colors_round_trip(s, q3, d3, d);
}

impl OpenRGBSendable for OpenRGBDevice {
    open spec fn fits(v: DeviceModel) -> bool {
        device_fits(v)
    }

    open spec fn encoding(v: DeviceModel) -> Seq<u8> {
        device_le(v)
    }

    open spec fn parse(s: Seq<u8>, p: int) -> Parsed<DeviceModel> {
        device_at(s, p)
    }

    #[verifier::spinoff_prover]
    fn serialize(&self, out: &mut Vec<u8>) -> (r: OpenRGBResult<()>) {
        if self.modes.len() > 65535 || self.zones.len() > 65535 || self.leds.len() > 65535
            || self.colors.len() > 65535 {
            return Err(OpenRGBError::InputTooLarge);
        }
        let mut buf: Vec<u8> = Vec::new();
        put_u32(&mut buf, self.device_type);
        put_text(&mut buf, &self.name)?;
        put_text(&mut buf, &self.description)?;
        put_text(&mut buf, &self.version)?;
        put_text(&mut buf, &self.serial)?;
        put_text(&mut buf, &self.location)?;
        assert(buf@ =~= device_head_le(self@));
        let ghost h = buf@;
        put_u16(&mut buf, self.modes.len() as u16);
        put_i32(&mut buf, self.active_mode);
        put_all(&mut buf, &self.modes)?;
        assert(buf@ =~= h + device_modes_le(self@));
        let ghost m = buf@;
        put_u16(&mut buf, self.zones.len() as u16);
        put_all(&mut buf, &self.zones)?;
        assert(buf@ =~= m + device_zones_le(self@));
        let ghost z = buf@;
        put_u16(&mut buf, self.leds.len() as u16);
        put_all(&mut buf, &self.leds)?;
        assert(buf@ =~= z + device_leds_le(self@));
        let ghost l = buf@;
        put_u16(&mut buf, self.colors.len() as u16);
        put_u32s(&mut buf, &self.colors);
        assert(buf@ =~= l + device_colors_le(self@));
        assert(buf@ =~= device_le(self@));
        out.append(&mut buf);
        Ok(())
    }

    #[verifier::spinoff_prover]
    fn deserialize(data: &[u8], pos: usize) -> (r: OpenRGBResult<(OpenRGBDevice, usize)>) {
        reveal(device_at);
        reveal(device_head_at);
        reveal(device_modes_at);
        reveal(device_zones_at);
        reveal(device_leds_at);
        reveal(device_colors_at);
        if pos > data.len() || data.len() - pos < 4 {
            return Err(OpenRGBError::UnexpectedEndOfData);
        }
        let device_type = read_u32(data, pos);
        let (name, q1) = get_text(data, pos + 4)?;
        let (description, q2) = get_text(data, q1)?;
        let (version, q3) = get_text(data, q2)?;
        let (serial, q4) = get_text(data, q3)?;
        let (location, q) = get_text(data, q4)?;
        if data.len() - q < 6 {
            return Err(OpenRGBError::UnexpectedEndOfData);
        }
        let mode_count = read_u16(data, q);
        let active_mode = read_u32(data, q + 2) as i32;
        let (modes, q5) = get_all::<OpenRGBMode>(data, q + 6, mode_count as usize)?;
        let (zone_count, q6) = get_u16(data, q5)?;
        let (zones, q7) = get_all::<OpenRGBZone>(data, q6, zone_count as usize)?;
        let (led_count, q8) = get_u16(data, q7)?;
        let (leds, q9) = get_all::<OpenRGBLed>(data, q8, led_count as usize)?;
        let (color_count, q10) = get_u16(data, q9)?;
        let (colors, end) = get_u32s(data, q10, color_count as usize)?;
        let device = OpenRGBDevice {
            name,
            description,
            version,
            serial,
            location,
            leds,
            zones,
            modes,
            colors,
            device_type,
            active_mode,
        };
        Ok((device, end))
    }
}

} // verus!
