use openrgb::{
    count_from, DeviceCache, device_from, resize_zone_request, update_leds_request, update_mode_request,
    update_single_led_request, update_zone_leds_request, Command, OpenRGBDevice, OpenRGBError,
    OpenRGBLed, OpenRGBMode, OpenRGBPackets, OpenRGBZone, RequestControllerCountPacket,
    RequestControllerDataPacket, ResizeZonePacket, SessionEvent, SessionState, UpdateLedsPacket, UpdateModePacket,
    UpdateSingleLedPacket, UpdateZoneLedsPacket,
};

fn mode(name: &str, speed: u32) -> OpenRGBMode {
    OpenRGBMode {
        name: name.to_string(),
        value: 0,
        flags: 0,
        speed_min: 0,
        speed_max: 10,
        colors_min: 0,
        colors_max: 0,
        speed,
        direction: 0,
        color_mode: 0,
        colors: vec![],
    }
}

fn device() -> OpenRGBDevice {
    OpenRGBDevice {
        name: "Strip".to_string(),
        description: String::new(),
        version: String::new(),
        serial: String::new(),
        location: String::new(),
        leds: vec![
            OpenRGBLed { name: "L0".to_string(), value: 0 },
            OpenRGBLed { name: "L1".to_string(), value: 1 },
        ],
        zones: vec![OpenRGBZone {
            name: "Z".to_string(),
            zone_type: 1,
            leds_count: 2,
            leds_min: 0,
            leds_max: 8,
            matrix_map: None,
        }],
        modes: vec![mode("Direct", 0), mode("Breathing", 3), mode("Breathing", 4)],
        colors: vec![0, 0],
        device_type: 4,
        active_mode: 0,
    }
}

#[test]
fn update_leds_checks_the_color_count() {
    let d = device();
    assert_eq!(
        update_leds_request(&d, &[1, 2]).unwrap(),
        OpenRGBPackets::UpdateLeds(UpdateLedsPacket::new(vec![1, 2]))
    );
    assert_eq!(
        update_leds_request(&d, &[1, 2, 3]).unwrap_err(),
        OpenRGBError::InvalidColorAmount(2, 3)
    );
}

#[test]
fn update_zone_leds_checks_zone_and_count() {
    let d = device();
    assert_eq!(
        update_zone_leds_request(&d, 0, &[7]).unwrap(),
        OpenRGBPackets::UpdateZoneLeds(UpdateZoneLedsPacket::new(0, vec![7]))
    );
    assert_eq!(update_zone_leds_request(&d, 1, &[7]).unwrap_err(), OpenRGBError::InvalidId(1));
    assert_eq!(
        update_zone_leds_request(&d, 0, &[1, 2, 3]).unwrap_err(),
        OpenRGBError::InvalidColorAmount(2, 3)
    );
}

#[test]
fn update_single_led_checks_the_led_id() {
    let d = device();
    assert_eq!(
        update_single_led_request(&d, 1, 0xFF).unwrap(),
        OpenRGBPackets::UpdateSingleLed(UpdateSingleLedPacket::new(1, 0xFF))
    );
    assert_eq!(update_single_led_request(&d, 2, 0xFF).unwrap_err(), OpenRGBError::InvalidId(2));
}

#[test]
fn update_mode_picks_the_first_mode_with_that_name() {
    let d = device();
    let wanted = mode("Breathing", 9);
    assert_eq!(
        update_mode_request(&d, wanted.clone()).unwrap(),
        OpenRGBPackets::UpdateMode(UpdateModePacket::new(1, wanted))
    );
    assert_eq!(
        update_mode_request(&d, mode("Rainbow", 0)).unwrap_err(),
        OpenRGBError::InvalidMode("Rainbow".to_string())
    );
}

#[test]
fn resize_zone_checks_the_zone_id() {
    let d = device();
    assert_eq!(
        resize_zone_request(&d, 0, 5).unwrap(),
        OpenRGBPackets::ResizeZone(ResizeZonePacket::new(0, 5))
    );
    assert_eq!(resize_zone_request(&d, 3, 5).unwrap_err(), OpenRGBError::InvalidId(3));
}

#[test]
fn responses_must_have_the_expected_shape() {
    let count = OpenRGBPackets::RequestControllerCount(RequestControllerCountPacket::new(4));
    assert_eq!(count_from(count.clone()), Ok(4));
    assert_eq!(device_from(count).unwrap_err(), OpenRGBError::UnexpectedVariant);
    let data = OpenRGBPackets::RequestControllerData(RequestControllerDataPacket::new(device()));
    assert_eq!(device_from(data.clone()).unwrap(), device());
    assert_eq!(count_from(data), Err(OpenRGBError::UnexpectedVariant));
    assert_eq!(
        count_from(OpenRGBPackets::Command(Command::RequestControllerCount)),
        Err(OpenRGBError::UnexpectedVariant)
    );
}

#[test]
fn device_cache_stores_and_replaces_by_id() {
    let mut cache = DeviceCache::new();
    assert_eq!(cache.get(0).unwrap_err(), OpenRGBError::InvalidId(0));
    cache.store(3, device());
    assert_eq!(cache.get(3).unwrap(), &device());
    assert_eq!(cache.get(0).unwrap_err(), OpenRGBError::InvalidId(0));
    let mut other = device();
    other.name = "Other".to_string();
    cache.store(0, other.clone());
    cache.store(3, other.clone());
    assert_eq!(cache.get(3).unwrap().name, "Other");
    assert_eq!(cache.get(0).unwrap(), &other);
}

#[test]
fn session_allows_one_request_at_a_time() {
    let s = SessionState::Idle;
    assert_eq!(s.check_send(), Ok(()));
    assert_eq!(s.check_read(), Err(OpenRGBError::Transport));
    let waiting = s.step(SessionEvent::Sent { awaits: true });
    assert_eq!(waiting, SessionState::AwaitingResponse);
    assert_eq!(waiting.check_send(), Err(OpenRGBError::Transport));
    assert_eq!(waiting.check_read(), Ok(()));
    assert_eq!(waiting.step(SessionEvent::Received), SessionState::Idle);
    assert_eq!(s.step(SessionEvent::Sent { awaits: false }), SessionState::Idle);
    assert_eq!(waiting.step(SessionEvent::Sent { awaits: true }), SessionState::Closed);
    assert_eq!(s.step(SessionEvent::Received), SessionState::Closed);
    for state in [SessionState::Idle, SessionState::AwaitingResponse, SessionState::Closed] {
        assert_eq!(state.step(SessionEvent::Failed), SessionState::Closed);
    }
    let closed = SessionState::Closed;
    assert_eq!(closed.step(SessionEvent::Received), SessionState::Closed);
    assert_eq!(closed.check_send(), Err(OpenRGBError::Transport));
}
