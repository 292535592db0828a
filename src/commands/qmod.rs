//! Device mode inquiry.
use vstd::prelude::*;
use bytes::BytesMut;
use crate::buffer::{buffer_bytes, buffer_contents};
use crate::command::{Command, Response, ResponseWire};
use crate::error::Error;
use crate::text::{check_text, text_ok};
use vstd::slice::slice_subrange;

verus! {

pub struct QMOD;

impl Command for QMOD {
    type Request = ();
    type Response = QMODResponse;

    /// `QMOD`
    open spec fn spec_protocol_id() -> Seq<u8> {
        seq![0x51u8, 0x4D, 0x4F, 0x44]
    }

    fn protocol_id() -> (r: Vec<u8>) {
        vec![0x51u8, 0x4D, 0x4F, 0x44]
    }

    fn command_name() -> &'static str {
        "DeviceModeInquiry"
    }
}

#[derive(Debug, PartialEq, Eq, Structural)]
pub struct QMODResponse {
    pub mode: DeviceMode,
}

#[derive(Debug, Clone, Copy, PartialEq, Eq, Structural)]
pub enum DeviceMode {
    PowerOnMode,
    StandbyMode,
    LineMode,
    BatteryMode,
    FaultMode,
    PowerSavingMode,
}

/// The mode that a code letter names: `P`, `S`, `L`, `B`, `F`, `H`.
pub open spec fn device_mode_of(b: u8) -> Option<DeviceMode> {
    if b == 0x50 {
        Some(DeviceMode::PowerOnMode)
    } else if b == 0x53 {
        Some(DeviceMode::StandbyMode)
    } else if b == 0x4C {
        Some(DeviceMode::LineMode)
    } else if b == 0x42 {
        Some(DeviceMode::BatteryMode)
    } else if b == 0x46 {
        Some(DeviceMode::FaultMode)
    } else if b == 0x48 {
        Some(DeviceMode::PowerSavingMode)
    } else {
        None
    }
}

/// The code letter of a mode.
pub open spec fn device_mode_code(m: DeviceMode) -> u8 {
    match m {
        DeviceMode::PowerOnMode => 0x50,
        DeviceMode::StandbyMode => 0x53,
        DeviceMode::LineMode => 0x4C,
        DeviceMode::BatteryMode => 0x42,
        DeviceMode::FaultMode => 0x46,
        DeviceMode::PowerSavingMode => 0x48,
    }
}

/// The mode that a code letter names.
pub fn device_mode_from(b: u8) -> (r: Option<DeviceMode>)
    ensures
        r == device_mode_of(b),
{
    if b == 0x50 {
        Some(DeviceMode::PowerOnMode)
    } else if b == 0x53 {
        Some(DeviceMode::StandbyMode)
    } else if b == 0x4C {
        Some(DeviceMode::LineMode)
    } else if b == 0x42 {
        Some(DeviceMode::BatteryMode)
    } else if b == 0x46 {
        Some(DeviceMode::FaultMode)
    } else if b == 0x48 {
        Some(DeviceMode::PowerSavingMode)
    } else {
        None
    }
}

impl Response for QMODResponse {
    /// The first byte of the payload is the mode's code letter; the rest is
    /// not read.
    open spec fn parse(payload: Seq<u8>) -> Result<Self, Error> {
        if payload.len() == 0 {
            Err(Error::InvalidDeviceMode)
        } else if !text_ok(payload.subrange(0, 1)) {
            Err(Error::Utf8)
        } else {
            match device_mode_of(payload[0]) {
                Some(m) => Ok(QMODResponse { mode: m }),
                None => Err(Error::InvalidDeviceMode),
            }
        }
    }

    fn decode(src: &mut BytesMut) -> (r: Result<Self, Error>) {
        let s = buffer_bytes(src);
        if s.len() == 0 {
            return Err(Error::InvalidDeviceMode);
        }
        if !check_text(slice_subrange(s, 0, 1)) {
            return Err(Error::Utf8);
        }
        match device_mode_from(s[0]) {
            Some(m) => Ok(QMODResponse { mode: m }),
            None => Err(Error::InvalidDeviceMode),
        }
    }
}

impl ResponseWire for QMODResponse {
    open spec fn legal(&self) -> bool {
        true
    }

    /// The mode's code letter.
    open spec fn wire(&self) -> Seq<u8> {
        seq![device_mode_code(self.mode)]
    }

    proof fn lemma_wire_round_trip(v: Self) {
        let w = v.wire();
        assert(w.subrange(0, 1) =~= w);
        assert forall|i: int| 0 <= i < w.len() implies w[i] != 0x0Du8 by {
            assert(w[i] == device_mode_code(v.mode));
        }
    }
}

} // verus!
