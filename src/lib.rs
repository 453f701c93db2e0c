//! Client-side codec for a length-framed, command-tagged RGB lighting
//! control protocol: primitives, command registry, record codecs, packet
//! header, payload codecs, frame dispatch and the client's request checks.

pub mod client;
pub mod command;
pub mod connection;
pub mod error;
pub mod header;
pub mod packet;
pub mod session;
pub mod types;
pub mod wire;

pub use client::{
    count_from, DeviceCache, device_from, resize_zone_request, update_leds_request, update_mode_request,
    update_single_led_request, update_zone_leds_request,
};
pub use command::Command;
pub use connection::{command_frame, packet_frame, read_packet, OpenRGBPackets};
pub use error::{OpenRGBError, OpenRGBResult};
pub use header::{PacketHeader, MAGIC};
pub use packet::{
    OpenRGBPacket, RequestControllerCountPacket, RequestControllerDataPacket, ResizeZonePacket,
    SetClientNamePacket, UpdateLedsPacket, UpdateModePacket, UpdateSingleLedPacket,
    UpdateZoneLedsPacket,
};
pub use session::{SessionEvent, SessionState};
pub use types::{
    OpenRGBColor, OpenRGBDevice, OpenRGBLed, OpenRGBMatrixMap, OpenRGBMode, OpenRGBSendable,
    OpenRGBZone, OpenRGBZoneType,
};
