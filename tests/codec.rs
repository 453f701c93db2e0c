use openrgb::wire::{get_text, put_text};
use openrgb::{
    OpenRGBDevice, OpenRGBError, OpenRGBLed, OpenRGBMatrixMap, OpenRGBMode, OpenRGBSendable,
    OpenRGBZone,
};

fn mode(name: &str, colors: Vec<u32>) -> OpenRGBMode {
    OpenRGBMode {
        name: name.to_string(),
        value: -3,
        flags: 7,
        speed_min: 1,
        speed_max: 100,
        colors_min: 0,
        colors_max: 16,
        speed: 50,
        direction: 2,
        color_mode: 1,
        colors,
    }
}

fn zone(name: &str, leds_count: u32, matrix_map: Option<OpenRGBMatrixMap>) -> OpenRGBZone {
    OpenRGBZone {
        name: name.to_string(),
        zone_type: 1,
        leds_count,
        leds_min: 0,
        leds_max: 64,
        matrix_map,
    }
}

fn led(name: &str, value: u32) -> OpenRGBLed {
    OpenRGBLed { name: name.to_string(), value }
}

fn round_trip<T: OpenRGBSendable + std::fmt::Debug + PartialEq>(x: &T) {
    let mut out = vec![0xAAu8];
    x.serialize(&mut out).unwrap();
    let mut data = out.clone();
    data.extend_from_slice(&[1, 2, 3]);
    let (back, end) = T::deserialize(&data, 1).unwrap();
    assert_eq!(&back, x);
    assert_eq!(end, out.len());
}

#[test]
fn led_bytes_are_text_then_value() {
    let mut out = Vec::new();
    led("ab", 0x01020304).serialize(&mut out).unwrap();
    assert_eq!(out, vec![2, 0, b'a', b'b', 4, 3, 2, 1]);
}

#[test]
fn led_round_trip_with_empty_name() {
    round_trip(&led("", 0));
    round_trip(&led("Fan1", u32::MAX));
}

#[test]
fn text_is_counted_utf8_without_terminator() {
    let mut out = Vec::new();
    put_text(&mut out, &"Lüfter".to_string()).unwrap();
    assert_eq!(out, vec![7, 0, b'L', 0xC3, 0xBC, b'f', b't', b'e', b'r']);
    let (text, end) = get_text(&out, 0).unwrap();
    assert_eq!(text, "Lüfter");
    assert_eq!(end, 9);
}

#[test]
fn text_with_invalid_utf8_is_malformed() {
    let data = vec![2, 0, 0xFF, 0xFE];
    assert_eq!(get_text(&data, 0).unwrap_err(), OpenRGBError::MalformedText);
}

#[test]
fn text_longer_than_count_field_is_refused() {
    let mut out = vec![9u8];
    let long = "a".repeat(65536);
    assert_eq!(put_text(&mut out, &long).unwrap_err(), OpenRGBError::InputTooLarge);
    assert_eq!(out, vec![9u8]);
    let longest = "a".repeat(65535);
    put_text(&mut out, &longest).unwrap();
    assert_eq!(out.len(), 1 + 2 + 65535);
    assert_eq!(&out[1..3], &[0xFF, 0xFF]);
}

#[test]
fn truncated_led_is_end_of_data() {
    let data = vec![2, 0, b'a', b'b', 4, 3];
    assert_eq!(OpenRGBLed::deserialize(&data, 0).unwrap_err(), OpenRGBError::UnexpectedEndOfData);
    let short_text = vec![5, 0, b'a'];
    assert_eq!(
        OpenRGBLed::deserialize(&short_text, 0).unwrap_err(),
        OpenRGBError::UnexpectedEndOfData
    );
}

#[test]
fn zone_without_matrix_decodes_none() {
    let z = zone("Fan", 4, None);
    let mut out = Vec::new();
    z.serialize(&mut out).unwrap();
    assert_eq!(&out[out.len() - 2..], &[0, 0]);
    let (back, end) = OpenRGBZone::deserialize(&out, 0).unwrap();
    assert!(back.matrix_map.is_none());
    assert_eq!(end, out.len());
    round_trip(&z);
}

#[test]
fn zone_with_four_by_two_matrix_decodes_eight_cells() {
    let m = OpenRGBMatrixMap { height: 2, width: 4, map: vec![0, 1, 2, 3, 4, 5, 6, 7] };
    let z = zone("Keys", 8, Some(m.clone()));
    let mut out = Vec::new();
    z.serialize(&mut out).unwrap();
    let (back, _) = OpenRGBZone::deserialize(&out, 0).unwrap();
    let back_map = back.matrix_map.unwrap();
    assert_eq!(back_map.map.len(), 8);
    assert_eq!(back_map, m);
}

#[test]
fn zone_matrix_block_written_width_first() {
    let m = OpenRGBMatrixMap { height: 1, width: 2, map: vec![9, 8] };
    let z = zone("", 2, Some(m));
    let mut out = Vec::new();
    z.serialize(&mut out).unwrap();
    let tail = &out[2 + 16..];
    assert_eq!(tail, &[16, 0, 2, 0, 0, 0, 1, 0, 0, 0, 9, 0, 0, 0, 8, 0, 0, 0]);
}

#[test]
fn zone_matrix_block_length_mismatch() {
    let m = OpenRGBMatrixMap { height: 2, width: 4, map: vec![0; 8] };
    let mut out = Vec::new();
    zone("Keys", 8, Some(m)).serialize(&mut out).unwrap();
    // The block length sits right after the name and the four scalars.
    let at = 2 + 4 + 16;
    out[at] = out[at] + 4;
    out.extend_from_slice(&[0, 0, 0, 0]);
    assert_eq!(OpenRGBZone::deserialize(&out, 0).unwrap_err(), OpenRGBError::LengthMismatch);
}

#[test]
fn zone_matrix_too_large_is_refused() {
    let m = OpenRGBMatrixMap { height: 1, width: 16382, map: vec![0; 16382] };
    let mut out = vec![1u8];
    assert_eq!(
        zone("Big", 1, Some(m)).serialize(&mut out).unwrap_err(),
        OpenRGBError::InputTooLarge
    );
    assert_eq!(out, vec![1u8]);
}

#[test]
fn mode_round_trip_with_and_without_colors() {
    round_trip(&mode("Static", vec![0x00FF00, 0xFF0000]));
    round_trip(&mode("Off", vec![]));
}

#[test]
fn mode_with_too_many_colors_is_refused() {
    let mut out = Vec::new();
    let m = mode("Rainbow", vec![0; 65536]);
    assert_eq!(m.serialize(&mut out).unwrap_err(), OpenRGBError::InputTooLarge);
    assert!(out.is_empty());
}

#[test]
fn mode_value_travels_as_twos_complement() {
    let mut out = Vec::new();
    mode("", vec![]).serialize(&mut out).unwrap();
    assert_eq!(&out[2..6], &[0xFD, 0xFF, 0xFF, 0xFF]);
}

fn gpu() -> OpenRGBDevice {
    OpenRGBDevice {
        name: "GPU".to_string(),
        description: "Graphics card".to_string(),
        version: "1.0".to_string(),
        serial: "SN-42".to_string(),
        location: "PCI 1".to_string(),
        leds: vec![led("Fan1", 0), led("Fan2", 1)],
        zones: vec![
            zone("Fan", 4, None),
            zone("Keys", 2, Some(OpenRGBMatrixMap { height: 1, width: 2, map: vec![0, 1] })),
        ],
        modes: vec![mode("Static", vec![0x00FF00, 0xFF0000]), mode("Off", vec![])],
        colors: vec![0x0000FF, 0x00FF00],
        device_type: 3,
        active_mode: -1,
    }
}

#[test]
fn device_round_trip_keeps_every_list_in_order() {
    round_trip(&gpu());
}

#[test]
fn device_with_empty_collections_round_trips() {
    let d = OpenRGBDevice {
        name: String::new(),
        description: String::new(),
        version: String::new(),
        serial: String::new(),
        location: String::new(),
        leds: vec![],
        zones: vec![],
        modes: vec![],
        colors: vec![],
        device_type: 0,
        active_mode: 0,
    };
    let mut out = Vec::new();
    d.serialize(&mut out).unwrap();
    assert_eq!(out.len(), 4 + 5 * 2 + 2 + 4 + 2 + 2 + 2);
    round_trip(&d);
}

#[test]
fn device_field_order_on_the_wire() {
    let mut out = Vec::new();
    gpu().serialize(&mut out).unwrap();
    assert_eq!(&out[0..4], &[3, 0, 0, 0]);
    assert_eq!(&out[4..9], &[3, 0, b'G', b'P', b'U']);
}

#[test]
fn device_with_oversized_text_leaves_output_unchanged() {
    let mut d = gpu();
    d.location = "x".repeat(70000);
    let mut out = vec![5u8, 6];
    assert_eq!(d.serialize(&mut out).unwrap_err(), OpenRGBError::InputTooLarge);
    assert_eq!(out, vec![5u8, 6]);
}

#[test]
fn device_with_oversized_mode_leaves_output_unchanged() {
    let mut d = gpu();
    d.modes.push(mode("Huge", vec![1; 70000]));
    let mut out = vec![5u8];
    assert_eq!(d.serialize(&mut out).unwrap_err(), OpenRGBError::InputTooLarge);
    assert_eq!(out, vec![5u8]);
}

#[test]
fn truncated_device_is_end_of_data() {
    let mut out = Vec::new();
    gpu().serialize(&mut out).unwrap();
    for cut in [0, 3, 10, out.len() / 2, out.len() - 1] {
        assert_eq!(
            OpenRGBDevice::deserialize(&out[..cut], 0).unwrap_err(),
            OpenRGBError::UnexpectedEndOfData
        );
    }
}
