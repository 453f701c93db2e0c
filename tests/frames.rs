use openrgb::{
    command_frame, packet_frame, read_packet, Command, OpenRGBDevice, OpenRGBError, OpenRGBLed,
    OpenRGBMode, OpenRGBPacket, OpenRGBPackets, OpenRGBZone, PacketHeader,
    RequestControllerCountPacket, RequestControllerDataPacket, ResizeZonePacket,
    SetClientNamePacket, UpdateLedsPacket, UpdateModePacket, UpdateSingleLedPacket,
    UpdateZoneLedsPacket, MAGIC,
};

const ALL_COMMANDS: [Command; 9] = [
    Command::SetClientName,
    Command::RequestControllerCount,
    Command::RequestControllerData,
    Command::ResizeZone,
    Command::UpdateLeds,
    Command::UpdateZoneLeds,
    Command::UpdateSingleLed,
    Command::SetCustomMode,
    Command::UpdateMode,
];

fn header_bytes(magic: u32, device: u32, command: u32, length: u32) -> Vec<u8> {
    let mut out = Vec::new();
    for v in [magic, device, command, length] {
        out.extend_from_slice(&v.to_le_bytes());
    }
    out
}

fn static_mode() -> OpenRGBMode {
    OpenRGBMode {
        name: "Static".to_string(),
        value: 1,
        flags: 0,
        speed_min: 0,
        speed_max: 0,
        colors_min: 1,
        colors_max: 2,
        speed: 0,
        direction: 0,
        color_mode: 1,
        colors: vec![0x00FF00, 0xFF0000],
    }
}

fn scenario_device() -> OpenRGBDevice {
    OpenRGBDevice {
        name: "GPU".to_string(),
        description: String::new(),
        version: String::new(),
        serial: String::new(),
        location: String::new(),
        leds: vec![OpenRGBLed { name: "Fan1".to_string(), value: 0 }],
        zones: vec![OpenRGBZone {
            name: "Fan".to_string(),
            zone_type: 0,
            leds_count: 4,
            leds_min: 0,
            leds_max: 4,
            matrix_map: None,
        }],
        modes: vec![static_mode()],
        colors: vec![0x0000FF],
        device_type: 3,
        active_mode: 0,
    }
}

fn frame_round_trip(packet: OpenRGBPackets, device: u32) {
    let frame = packet_frame(&packet, device).unwrap();
    let mut stream = frame.clone();
    stream.extend_from_slice(&header_bytes(MAGIC, 0, 0, 0));
    let (back, used) = read_packet(&stream).unwrap();
    assert_eq!(back, packet);
    assert_eq!(used, frame.len());
    let (header, _) = PacketHeader::deserialize(&frame, 0).unwrap();
    assert_eq!(header.device, device);
    assert_eq!(header.length as usize, frame.len() - 16);
    assert_eq!(header.command, packet.command());
}

#[test]
fn controller_data_frame_end_to_end() {
    let device = scenario_device();
    let packet = OpenRGBPackets::RequestControllerData(RequestControllerDataPacket::new(device));
    let frame = packet_frame(&packet, 2).unwrap();
    let (header, start) = PacketHeader::deserialize(&frame, 0).unwrap();
    assert_eq!(header, PacketHeader::new(2, Command::RequestControllerData, (frame.len() - 16) as u32));
    let body = &frame[start..start + header.length as usize];
    let inner = u32::from_le_bytes([body[0], body[1], body[2], body[3]]);
    assert_eq!(inner, header.length - 4);
    let back = OpenRGBPackets::deserialize(header.command, body).unwrap();
    let d = match back {
        OpenRGBPackets::RequestControllerData(p) => p.device,
        other => panic!("unexpected packet {:?}", other),
    };
    assert_eq!(d.name, "GPU");
    assert_eq!(d.device_type, 3);
    assert_eq!(d.modes.len(), 1);
    assert_eq!(d.modes[0].name, "Static");
    assert_eq!(d.modes[0].colors, vec![0x00FF00, 0xFF0000]);
    assert_eq!(d.zones.len(), 1);
    assert_eq!(d.zones[0].name, "Fan");
    assert_eq!(d.zones[0].leds_count, 4);
    assert!(d.zones[0].matrix_map.is_none());
    assert_eq!(d.leds.len(), 1);
    assert_eq!(d.leds[0].name, "Fan1");
    assert_eq!(d.leds[0].value, 0);
    assert_eq!(d.colors, vec![0x0000FF]);
    assert_eq!(d, scenario_device());
    let (again, used) = read_packet(&frame).unwrap();
    assert_eq!(used, frame.len());
    assert_eq!(again, OpenRGBPackets::RequestControllerData(RequestControllerDataPacket::new(scenario_device())));
}

#[test]
fn unknown_command_fails_before_the_body() {
    let header = header_bytes(MAGIC, 0, 9999, 0);
    assert_eq!(
        PacketHeader::deserialize(&header, 0).unwrap_err(),
        OpenRGBError::UnknownCommand(9999)
    );
    let mut stream = header.clone();
    stream.extend_from_slice(&[1, 2, 3, 4]);
    assert_eq!(read_packet(&stream).unwrap_err(), OpenRGBError::UnknownCommand(9999));
}

#[test]
fn controller_data_inner_length_mismatch() {
    let packet = OpenRGBPackets::RequestControllerData(RequestControllerDataPacket::new(scenario_device()));
    let mut frame = packet_frame(&packet, 0).unwrap();
    frame[16] = frame[16].wrapping_add(1);
    assert_eq!(read_packet(&frame).unwrap_err(), OpenRGBError::LengthMismatch);
    let body = &frame[16..];
    assert_eq!(
        RequestControllerDataPacket::deserialize(body).unwrap_err(),
        OpenRGBError::LengthMismatch
    );
}

#[test]
fn header_round_trip_at_extremes() {
    for command in ALL_COMMANDS {
        for device in [0, 1, u32::MAX] {
            for length in [0, 7, u32::MAX] {
                let h = PacketHeader::new(device, command, length);
                let mut out = Vec::new();
                h.serialize(&mut out);
                assert_eq!(out.len(), 16);
                let (back, end) = PacketHeader::deserialize(&out, 0).unwrap();
                assert_eq!(back, h);
                assert_eq!(end, 16);
            }
        }
    }
}

#[test]
fn header_layout_is_little_endian() {
    let mut out = Vec::new();
    PacketHeader::new(2, Command::UpdateLeds, 0x0A0B).serialize(&mut out);
    assert_eq!(out, vec![0x4F, 0x52, 0x47, 0x42, 2, 0, 0, 0, 0x1A, 0x04, 0, 0, 0x0B, 0x0A, 0, 0]);
}

#[test]
fn header_with_wrong_magic_is_a_protocol_mismatch() {
    for magic in [0, 1, MAGIC - 1, MAGIC + 1, u32::MAX] {
        let bytes = header_bytes(magic, 0, 50, 0);
        assert_eq!(
            PacketHeader::deserialize(&bytes, 0).unwrap_err(),
            OpenRGBError::ProtocolMismatch(magic)
        );
        assert_eq!(
            PacketHeader::deserialize(&bytes[..4], 0).unwrap_err(),
            OpenRGBError::ProtocolMismatch(magic)
        );
        let garbage = header_bytes(magic, 0xDEAD, 9999, u32::MAX);
        assert_eq!(read_packet(&garbage).unwrap_err(), OpenRGBError::ProtocolMismatch(magic));
    }
}

#[test]
fn short_header_is_end_of_data() {
    let bytes = header_bytes(MAGIC, 0, 50, 0);
    assert_eq!(
        PacketHeader::deserialize(&bytes[..15], 0).unwrap_err(),
        OpenRGBError::UnexpectedEndOfData
    );
    assert_eq!(PacketHeader::deserialize(&bytes[..3], 0).unwrap_err(), OpenRGBError::UnexpectedEndOfData);
}

#[test]
fn command_registry_is_total_on_its_ids() {
    for id in [50, 0, 1, 1000, 1050, 1051, 1052, 1100, 1101] {
        let c = Command::from_id(id).unwrap();
        assert_eq!(c.to_id(), id);
        assert_eq!(Command::from_id(c.to_id()), Command::from_id(id));
    }
    for id in [2, 49, 51, 999, 1001, 1049, 1053, 1099, 1102, 9999, u32::MAX] {
        assert_eq!(Command::from_id(id), Err(OpenRGBError::UnknownCommand(id)));
    }
}

#[test]
fn command_names() {
    assert_eq!(Command::SetClientName.name(), "SetClientName");
    assert_eq!(Command::UpdateZoneLeds.name(), "UpdateZoneLeds");
    assert_eq!(Command::from_id(1100).unwrap().name(), "SetCustomMode");
}

#[test]
fn bodyless_command_frame() {
    for command in ALL_COMMANDS {
        let frame = command_frame(command, 5);
        assert_eq!(frame, header_bytes(MAGIC, 5, command.to_id(), 0));
        let (back, used) = read_packet(&frame).unwrap();
        assert_eq!(back, OpenRGBPackets::Command(command));
        assert_eq!(used, 16);
    }
}

#[test]
fn payload_frames_round_trip() {
    frame_round_trip(OpenRGBPackets::SetClientName(SetClientNamePacket::new("Example ✓".to_string())), 0);
    frame_round_trip(OpenRGBPackets::RequestControllerCount(RequestControllerCountPacket::new(3)), 0);
    frame_round_trip(OpenRGBPackets::RequestControllerCount(RequestControllerCountPacket::new(0)), 0);
    frame_round_trip(OpenRGBPackets::UpdateLeds(UpdateLedsPacket::new(vec![1, 2, 3])), 4);
    frame_round_trip(OpenRGBPackets::UpdateLeds(UpdateLedsPacket::new(vec![])), 4);
    frame_round_trip(OpenRGBPackets::UpdateZoneLeds(UpdateZoneLedsPacket::new(2, vec![0xFFFFFF])), 1);
    frame_round_trip(OpenRGBPackets::UpdateSingleLed(UpdateSingleLedPacket::new(7, 0x123456)), 1);
    frame_round_trip(OpenRGBPackets::ResizeZone(ResizeZonePacket::new(0, 30)), u32::MAX);
    frame_round_trip(OpenRGBPackets::UpdateMode(UpdateModePacket::new(1, static_mode())), 9);
}

#[test]
fn payload_body_layouts() {
    let leds = UpdateLedsPacket::new(vec![0x0A0B0C]).serialize().unwrap();
    assert_eq!(leds, vec![6, 0, 0, 0, 1, 0, 0x0C, 0x0B, 0x0A, 0]);
    let zone = UpdateZoneLedsPacket::new(3, vec![]).serialize().unwrap();
    assert_eq!(zone, vec![6, 0, 0, 0, 3, 0, 0, 0, 0, 0]);
    let single = UpdateSingleLedPacket::new(1, 2).serialize().unwrap();
    assert_eq!(single, vec![1, 0, 0, 0, 2, 0, 0, 0]);
    let resize = ResizeZonePacket::new(4, 5).serialize().unwrap();
    assert_eq!(resize, vec![4, 0, 0, 0, 5, 0, 0, 0]);
    let name = SetClientNamePacket::new("ab".to_string()).serialize().unwrap();
    assert_eq!(name, vec![b'a', b'b']);
    let count = RequestControllerCountPacket::new(0x01020304).serialize().unwrap();
    assert_eq!(count, vec![4, 3, 2, 1]);
    let mode = UpdateModePacket::new(2, static_mode()).serialize().unwrap();
    let inner = u32::from_le_bytes([mode[0], mode[1], mode[2], mode[3]]) as usize;
    assert_eq!(inner, mode.len() - 4);
    assert_eq!(&mode[4..8], &[2, 0, 0, 0]);
}

#[test]
fn empty_client_name_reads_as_bare_command() {
    let packet = OpenRGBPackets::SetClientName(SetClientNamePacket::new(String::new()));
    let frame = packet_frame(&packet, 0).unwrap();
    assert_eq!(frame.len(), 16);
    let (back, _) = read_packet(&frame).unwrap();
    assert_eq!(back, OpenRGBPackets::Command(Command::SetClientName));
}

#[test]
fn client_name_with_invalid_utf8_is_malformed() {
    let mut frame = header_bytes(MAGIC, 0, 50, 2);
    frame.extend_from_slice(&[0xC3, 0x28]);
    assert_eq!(read_packet(&frame).unwrap_err(), OpenRGBError::MalformedText);
}

#[test]
fn body_for_a_bodyless_command_is_refused() {
    let mut frame = header_bytes(MAGIC, 0, 1100, 1);
    frame.push(0);
    assert_eq!(
        read_packet(&frame).unwrap_err(),
        OpenRGBError::InvalidPacketBody(Command::SetCustomMode)
    );
}

#[test]
fn body_shorter_than_declared_is_end_of_data() {
    let mut frame = header_bytes(MAGIC, 0, 0, 4);
    frame.extend_from_slice(&[1, 0]);
    assert_eq!(read_packet(&frame).unwrap_err(), OpenRGBError::UnexpectedEndOfData);
}

#[test]
fn trailing_bytes_in_a_body_are_a_length_mismatch() {
    let mut frame = header_bytes(MAGIC, 0, 0, 5);
    frame.extend_from_slice(&[1, 0, 0, 0, 9]);
    assert_eq!(read_packet(&frame).unwrap_err(), OpenRGBError::LengthMismatch);
    let mut leds = UpdateLedsPacket::new(vec![1]).serialize().unwrap();
    leds.push(0);
    leds[0] += 1;
    assert_eq!(UpdateLedsPacket::deserialize(&leds).unwrap_err(), OpenRGBError::LengthMismatch);
}

#[test]
fn update_leds_inner_length_mismatch() {
    let mut body = UpdateLedsPacket::new(vec![1, 2]).serialize().unwrap();
    body[0] = 0;
    assert_eq!(UpdateLedsPacket::deserialize(&body).unwrap_err(), OpenRGBError::LengthMismatch);
    let mut zone = UpdateZoneLedsPacket::new(1, vec![1]).serialize().unwrap();
    zone[0] = 99;
    assert_eq!(UpdateZoneLedsPacket::deserialize(&zone).unwrap_err(), OpenRGBError::LengthMismatch);
    assert_eq!(
        UpdateModePacket::deserialize(&[1, 0, 0]).unwrap_err(),
        OpenRGBError::UnexpectedEndOfData
    );
}

#[test]
fn color_count_past_the_body_is_end_of_data() {
    let body = vec![6, 0, 0, 0, 2, 0, 1, 0, 0, 0];
    assert_eq!(UpdateLedsPacket::deserialize(&body).unwrap_err(), OpenRGBError::UnexpectedEndOfData);
}

#[test]
fn ids_beyond_the_wire_field_are_refused() {
    if usize::MAX as u64 > u32::MAX as u64 {
        let big = u32::MAX as usize + 1;
        assert_eq!(
            UpdateSingleLedPacket::new(big, 0).serialize().unwrap_err(),
            OpenRGBError::InvalidId(big)
        );
        assert_eq!(
            ResizeZonePacket::new(big, 0).serialize().unwrap_err(),
            OpenRGBError::InvalidId(big)
        );
        assert_eq!(
            UpdateZoneLedsPacket::new(big, vec![]).serialize().unwrap_err(),
            OpenRGBError::InvalidId(big)
        );
        let packet = OpenRGBPackets::UpdateMode(UpdateModePacket::new(big, static_mode()));
        assert_eq!(packet_frame(&packet, 0).unwrap_err(), OpenRGBError::InvalidId(big));
    }
}

#[test]
fn too_many_colors_for_a_frame_is_refused() {
    let packet = OpenRGBPackets::UpdateLeds(UpdateLedsPacket::new(vec![0; 65536]));
    assert_eq!(packet_frame(&packet, 0).unwrap_err(), OpenRGBError::InputTooLarge);
}
