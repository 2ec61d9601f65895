//! The panel's command vocabulary: the closed set of one-byte opcodes
//! this driver issues, each mapped to the opcode byte the panel firmware
//! expects.  The byte values are the panel vendor's published constants;
//! the panel performs no validation, so they must be reproduced exactly.

use vstd::prelude::*;

verus! {

/// One protocol opcode.  Only the opcodes this driver actually issues
/// are represented; the set is closed, so no invalid opcode can be
/// constructed.
#[derive(Clone, Copy, PartialEq, Eq, Structural, Debug)]
pub enum Command {
    PanelSetting,
    PowerSetting,
    PowerOff,
    PowerOffSequenceSetting,
    PowerOn,
    BoosterSoftStart,
    DeepSleep,
    DataStartTransmission1,
    DisplayRefresh,
    PllControl,
    TemperatureSensorEnable,
    VcomAndDataIntervalSetting,
    TconSetting,
    TconResolution,
    FlashMode,
}

impl Command {
    /// The opcode byte sent on the bus for this command.
    pub open spec fn spec_byte(self) -> u8 {
        match self {
            Command::PanelSetting => 0x00,
            Command::PowerSetting => 0x01,
            Command::PowerOff => 0x02,
            Command::PowerOffSequenceSetting => 0x03,
            Command::PowerOn => 0x04,
            Command::BoosterSoftStart => 0x06,
            Command::DeepSleep => 0x07,
            Command::DataStartTransmission1 => 0x10,
            Command::DisplayRefresh => 0x12,
            Command::PllControl => 0x30,
            Command::TemperatureSensorEnable => 0x41,
            Command::VcomAndDataIntervalSetting => 0x50,
            Command::TconSetting => 0x60,
            Command::TconResolution => 0x61,
            Command::FlashMode => 0xE3,
        }
    }

    pub fn byte(self) -> (r: u8)
        ensures
            r == self.spec_byte(),
    {
        match self {
            Command::PanelSetting => 0x00,
            Command::PowerSetting => 0x01,
            Command::PowerOff => 0x02,
            Command::PowerOffSequenceSetting => 0x03,
            Command::PowerOn => 0x04,
            Command::BoosterSoftStart => 0x06,
            Command::DeepSleep => 0x07,
            Command::DataStartTransmission1 => 0x10,
            Command::DisplayRefresh => 0x12,
            Command::PllControl => 0x30,
            Command::TemperatureSensorEnable => 0x41,
            Command::VcomAndDataIntervalSetting => 0x50,
            Command::TconSetting => 0x60,
            Command::TconResolution => 0x61,
            Command::FlashMode => 0xE3,
        }
    }
}

} // verus!
