//! The decisions of the client facade: which packet a request sends, when a
//! request is refused before anything is sent, and what a response must be.
use crate::connection::{OpenRGBPackets, PacketModel};
use crate::error::{OpenRGBError, OpenRGBResult};
use crate::packet::{
    ResizeZonePacket, UpdateLedsPacket, UpdateModePacket, UpdateSingleLedPacket,
    UpdateZoneLedsPacket,
};
use crate::types::{DeviceModel, ModeModel, OpenRGBColor, OpenRGBDevice, OpenRGBMode};
use vstd::prelude::*;
use vstd::slice::slice_to_vec;

verus! {

/// The index of the first mode named `name`, if any.
pub open spec fn first_mode_named(modes: Seq<ModeModel>, name: Seq<char>) -> Option<int> {
    if exists|i: int| 0 <= i < modes.len() && modes[i].name == name {
        Some(
            choose|i: int|
                0 <= i < modes.len() && modes[i].name == name && forall|j: int|
                    0 <= j < i ==> modes[j].name != name,
        )
    } else {
        None
    }
}

/// The controller count that a count request's response carries.
pub fn count_from(packet: OpenRGBPackets) -> (r: OpenRGBResult<u32>)
    ensures
        match packet@ {
            PacketModel::RequestControllerCount(c) => r == Ok::<u32, OpenRGBError>(c),
            _ => r == Err::<u32, OpenRGBError>(OpenRGBError::UnexpectedVariant),
        },
{
    match packet {
        OpenRGBPackets::RequestControllerCount(p) => Ok(p.count),
        _ => Err(OpenRGBError::UnexpectedVariant),
    }
}

/// The device that a device request's response carries.
pub fn device_from(packet: OpenRGBPackets) -> (r: OpenRGBResult<OpenRGBDevice>)
    ensures
        match packet@ {
            PacketModel::RequestControllerData(d) => r matches Ok(v) && v@ == d,
            _ => r matches Err(e) && e == OpenRGBError::UnexpectedVariant,
        },
{
    match packet {
        OpenRGBPackets::RequestControllerData(p) => Ok(p.device),
        _ => Err(OpenRGBError::UnexpectedVariant),
    }
}

/// Sets the LEDs of `device` from the first on; more colors than the
/// device has are refused.
pub fn update_leds_request(device: &OpenRGBDevice, colors: &[OpenRGBColor]) -> (r: OpenRGBResult<
    OpenRGBPackets,
>)
    ensures
        colors@.len() > device.colors@.len() ==> r == Err::<OpenRGBPackets, OpenRGBError>(
            OpenRGBError::InvalidColorAmount(device.colors@.len() as usize, colors@.len() as usize),
        ),
        colors@.len() <= device.colors@.len() ==> (r matches Ok(p) && p@ == PacketModel::UpdateLeds(
            colors@,
        )),
{
    if colors.len() > device.colors.len() {
        return Err(OpenRGBError::InvalidColorAmount(device.colors.len(), colors.len()));
    }
    Ok(OpenRGBPackets::UpdateLeds(UpdateLedsPacket::new(slice_to_vec(colors))))
}

/// Sets the LEDs of one zone; an unknown zone, or more colors than the zone
/// has LEDs, is refused.
pub fn update_zone_leds_request(
    device: &OpenRGBDevice,
    zone_id: usize,
    colors: &[OpenRGBColor],
) -> (r: OpenRGBResult<OpenRGBPackets>)
    ensures
        zone_id >= device.zones@.len() ==> r == Err::<OpenRGBPackets, OpenRGBError>(
            OpenRGBError::InvalidId(zone_id),
        ),
        zone_id < device.zones@.len() && colors@.len() > device.zones@[zone_id as int].leds_count
            ==> r == Err::<OpenRGBPackets, OpenRGBError>(
            OpenRGBError::InvalidColorAmount(
                device.zones@[zone_id as int].leds_count as usize,
                colors@.len() as usize,
            ),
        ),
        zone_id < device.zones@.len() && colors@.len() <= device.zones@[zone_id as int].leds_count
            ==> (r matches Ok(p) && p@ == PacketModel::UpdateZoneLeds((zone_id, colors@))),
{
    if zone_id >= device.zones.len() {
        return Err(OpenRGBError::InvalidId(zone_id));
    }
    let leds_count = device.zones[zone_id].leds_count as usize;
    if colors.len() > leds_count {
        return Err(OpenRGBError::InvalidColorAmount(leds_count, colors.len()));
    }
    Ok(OpenRGBPackets::UpdateZoneLeds(UpdateZoneLedsPacket::new(zone_id, slice_to_vec(colors))))
}

/// Sets one LED; an id past the device's LEDs is refused.
pub fn update_single_led_request(
    device: &OpenRGBDevice,
    led_id: usize,
    color: OpenRGBColor,
) -> (r: OpenRGBResult<OpenRGBPackets>)
    ensures
        led_id >= device.leds@.len() ==> r == Err::<OpenRGBPackets, OpenRGBError>(
            OpenRGBError::InvalidId(led_id),
        ),
        led_id < device.leds@.len() ==> (r matches Ok(p) && p@ == PacketModel::UpdateSingleLed(
            (led_id, color),
        )),
{
    if led_id >= device.leds.len() {
        return Err(OpenRGBError::InvalidId(led_id));
    }
    Ok(OpenRGBPackets::UpdateSingleLed(UpdateSingleLedPacket::new(led_id, color)))
}

/// Replaces the first mode of the device that has the same name as `mode`;
/// a name that no mode has is refused.
pub fn update_mode_request(device: &OpenRGBDevice, mode: OpenRGBMode) -> (r: OpenRGBResult<
    OpenRGBPackets,
>)
    ensures
        match first_mode_named(device@.modes, mode.name@) {
            Some(i) => r matches Ok(p) && p@ == PacketModel::UpdateMode((i as usize, mode@)),
            None => r matches Err(e) && e == OpenRGBError::InvalidMode(mode.name),
        },
{
    let mut i: usize = 0;
    while i < device.modes.len()
        invariant
            i <= device.modes@.len(),
            forall|j: int| 0 <= j < i ==> device@.modes[j].name != mode.name@,
        decreases device.modes.len() - i,
    {
        assert(device@.modes[i as int] == device.modes@[i as int]@);
        if device.modes[i].name == mode.name {
            proof {
                let k = first_mode_named(device@.modes, mode.name@)->0;
                assert(device@.modes[i as int].name == mode.name@);
                if k < i {
                } else if k > i {
                }
            }
            return Ok(OpenRGBPackets::UpdateMode(UpdateModePacket::new(i, mode)));
        }
        i += 1;
    }
    Err(OpenRGBError::InvalidMode(mode.name))
}

/// Resizes one zone; an unknown zone is refused.
pub fn resize_zone_request(device: &OpenRGBDevice, zone_id: usize, new_size: u32) -> (r:
    OpenRGBResult<OpenRGBPackets>)
    ensures
        zone_id >= device.zones@.len() ==> r == Err::<OpenRGBPackets, OpenRGBError>(
            OpenRGBError::InvalidId(zone_id),
        ),
        zone_id < device.zones@.len() ==> (r matches Ok(p) && p@ == PacketModel::ResizeZone(
            (zone_id, new_size),
        )),
{
    if zone_id >= device.zones.len() {
        return Err(OpenRGBError::InvalidId(zone_id));
    }
    Ok(OpenRGBPackets::ResizeZone(ResizeZonePacket::new(zone_id, new_size)))
}

/// The devices fetched so far, each under its device id.
pub struct DeviceCache {
    entries: Vec<(usize, OpenRGBDevice)>,
}

/// The map that a list of entries stands for; a later entry wins.
pub open spec fn cache_map(s: Seq<(usize, OpenRGBDevice)>) -> Map<usize, DeviceModel>
    decreases s.len(),
{
    if s.len() == 0 {
        Map::empty()
    } else {
        cache_map(s.drop_last()).insert(s.last().0, s.last().1@)
    }
}

pub open spec fn ids_distinct(s: Seq<(usize, OpenRGBDevice)>) -> bool {
    forall|i: int, j: int| 0 <= i < j < s.len() ==> s[i].0 != s[j].0
}

proof fn lemma_cache_lookup(s: Seq<(usize, OpenRGBDevice)>, i: int)
    requires
        ids_distinct(s),
        0 <= i < s.len(),
    ensures
        cache_map(s).contains_key(s[i].0),
        cache_map(s)[s[i].0] == s[i].1@,
    decreases s.len(),
{
    if i < s.len() - 1 {
        let init = s.drop_last();
        assert(init[i] == s[i]);
        lemma_cache_lookup(init, i);
    }
}

proof fn lemma_cache_absent(s: Seq<(usize, OpenRGBDevice)>, id: usize)
    requires
        forall|i: int| 0 <= i < s.len() ==> s[i].0 != id,
    ensures
        !cache_map(s).contains_key(id),
    decreases s.len(),
{
    if s.len() > 0 {
        let init = s.drop_last();
        assert forall|i: int| 0 <= i < init.len() implies init[i].0 != id by {
            assert(init[i] == s[i]);
        }
        lemma_cache_absent(init, id);
    }
}

proof fn lemma_cache_replace(s: Seq<(usize, OpenRGBDevice)>, i: int, d: OpenRGBDevice)
    requires
        ids_distinct(s),
        0 <= i < s.len(),
    ensures
        cache_map(s.update(i, (s[i].0, d))) == cache_map(s).insert(s[i].0, d@),
    decreases s.len(),
{
    let k = s[i].0;
    let t = s.update(i, (k, d));
    let init = s.drop_last();
    if i == s.len() - 1 {
        assert(t.drop_last() =~= init);
        assert(cache_map(t) =~= cache_map(s).insert(k, d@));
    } else {
        assert(t.drop_last() =~= init.update(i, (k, d)));
        assert(init[i] == s[i]);
        lemma_cache_replace(init, i, d);
        assert(s.last().0 != k);
        assert(cache_map(t) =~= cache_map(s).insert(k, d@));
    }
}

impl View for DeviceCache {
    type V = Map<usize, DeviceModel>;

    closed spec fn view(&self) -> Map<usize, DeviceModel> {
        cache_map(self.entries@)
    }
}

impl DeviceCache {
    /// No id is stored twice.
    pub closed spec fn wf(&self) -> bool {
        ids_distinct(self.entries@)
    }

    pub fn new() -> (r: DeviceCache)
        ensures
            r.wf(),
            r@ == Map::<usize, DeviceModel>::empty(),
    {
        DeviceCache { entries: Vec::new() }
    }

    fn position(&self, id: usize) -> (r: Option<usize>)
        ensures
            match r {
                Some(i) => i < self.entries@.len() && self.entries@[i as int].0 == id,
                None => forall|i: int| 0 <= i < self.entries@.len() ==> self.entries@[i].0 != id,
            },
    {
        let mut i: usize = 0;
        while i < self.entries.len()
            invariant
                i <= self.entries@.len(),
                forall|j: int| 0 <= j < i ==> self.entries@[j].0 != id,
            decreases self.entries.len() - i,
        {
            if self.entries[i].0 == id {
                return Some(i);
            }
            i += 1;
        }
        None
    }

    /// The device stored under `id`; an id never stored is refused.
    pub fn get(&self, id: usize) -> (r: OpenRGBResult<&OpenRGBDevice>)
        requires
            self.wf(),
        ensures
            self@.contains_key(id) ==> (r matches Ok(d) && d@ == self@[id]),
            !self@.contains_key(id) ==> r == Err::<&OpenRGBDevice, OpenRGBError>(
                OpenRGBError::InvalidId(id),
            ),
    {
        match self.position(id) {
            Some(i) => {
                proof {
                    lemma_cache_lookup(self.entries@, i as int);
                }
                Ok(&self.entries[i].1)
            },
            None => {
                proof {
                    lemma_cache_absent(self.entries@, id);
                }
                Err(OpenRGBError::InvalidId(id))
            },
        }
    }

    /// Stores `device` under `id`, replacing what was there.
    pub fn store(&mut self, id: usize, device: OpenRGBDevice)
        requires
            old(self).wf(),
        ensures
            final(self).wf(),
            final(self)@ == old(self)@.insert(id, device@),
    {
        match self.position(id) {
            Some(i) => {
                proof {
                    lemma_cache_replace(self.entries@, i as int, device);
                }
                self.entries.set(i, (id, device));
                assert(forall|j: int|
                    0 <= j < self.entries@.len() ==> #[trigger] self.entries@[j].0 == old(
                        self,
                    ).entries@[j].0);
            },
            None => {
                let ghost before = self.entries@;
                self.entries.push((id, device));
                assert(self.entries@.drop_last() =~= before);
            },
        }
    }
}

} // verus!
