//! Device warning status inquiry.
use vstd::prelude::*;
use bytes::BytesMut;
use crate::buffer::{buffer_bytes, buffer_contents};
use crate::command::{Command, Response, ResponseWire};
use crate::error::Error;
use crate::text::{check_text, is_ascii, text_ok};
use vstd::slice::slice_subrange;

verus! {

pub struct QPIWS;

impl Command for QPIWS {
    type Request = ();
    type Response = QPIWSResponse;

    /// `QPIWS`
    open spec fn spec_protocol_id() -> Seq<u8> {
        seq![0x51u8, 0x50, 0x49, 0x57, 0x53]
    }

    fn protocol_id() -> (r: Vec<u8>) {
        vec![0x51u8, 0x50, 0x49, 0x57, 0x53]
    }

    fn command_name() -> &'static str {
        "DeviceWarningStatus"
    }
}

/// The digit `1`: a warning that is raised.
pub const FLAG_ON: u8 = 0x31;

/// The digit `0`: a warning that is clear.
pub const FLAG_OFF: u8 = 0x30;

/// The positions of the payload that carry a warning; the others are reserved.
pub open spec fn is_warning_position(i: int) -> bool {
    1 <= i <= 29 && i != 13 && i != 15
}

/// The error that the byte at a warning position gives, if any: it must be
/// well-encoded text, then `0` or `1`.
pub open spec fn flag_error(b: u8) -> Option<Error> {
    if !text_ok(seq![b]) {
        Some(Error::Utf8)
    } else if b == FLAG_ON || b == FLAG_OFF {
        None
    } else {
        Some(Error::InvalidWarningStatus)
    }
}

/// Reading the warning positions from `i` on, in order: the error of the
/// first that fails, if any.
pub open spec fn warnings_error_from(payload: Seq<u8>, i: int) -> Option<Error>
    decreases 30 - i,
{
    if i >= 30 {
        None
    } else if !is_warning_position(i) {
        warnings_error_from(payload, i + 1)
    } else {
        match flag_error(payload[i]) {
            Some(e) => Some(e),
            None => warnings_error_from(payload, i + 1),
        }
    }
}

/// Where every warning position from `i` on holds `0` or `1`, none fails.
proof fn lemma_flags_clean(payload: Seq<u8>, i: int)
    requires
        1 <= i <= 30,
        payload.len() >= 30,
        forall|j: int|
            i <= j < 30 && is_warning_position(j) ==> #[trigger] payload[j] == FLAG_ON || payload[j]
                == FLAG_OFF,
    ensures
        warnings_error_from(payload, i) is None,
    decreases 30 - i,
{
    if i < 30 {
        lemma_flags_clean(payload, i + 1);
        if is_warning_position(i) {
            let t = seq![payload[i]];
            assert(t[0] == payload[i]);
            assert(is_ascii(t));
        }
    }
}

#[derive(Debug, PartialEq, Eq, Structural)]
pub struct QPIWSResponse {
    pub inverter_fault: bool,
    pub bus_over: bool,
    pub bus_under: bool,
    pub bus_soft_fail: bool,
    pub line_fail: bool,
    pub opv_short: bool,
    pub inverter_voltage_too_low: bool,
    pub inverter_voltage_too_high: bool,
    pub over_temperature: bool,
    pub fan_locked: bool,
    pub battery_voltage_high: bool,
    pub battery_low_alarm: bool,
    pub battery_under_shutdown: bool,
    pub over_load: bool,
    pub eeprom_fault: bool,
    pub inverter_over_current: bool,
    pub inverter_soft_fail: bool,
    pub self_test_fail: bool,
    pub op_dc_voltage_over: bool,
    pub bat_open: bool,
    pub current_sensor_fail: bool,
    pub battery_short: bool,
    pub power_limit: bool,
    pub pv_voltage_high: bool,
    pub mppt_overload_fault: bool,
    pub mppt_overload_warning: bool,
    pub battery_too_low_to_charge: bool,
}

/// The warnings that a well-formed payload reports.
pub open spec fn warnings_of(payload: Seq<u8>) -> QPIWSResponse {
    QPIWSResponse {
        inverter_fault: payload[1] == FLAG_ON,
        bus_over: payload[2] == FLAG_ON,
        bus_under: payload[3] == FLAG_ON,
        bus_soft_fail: payload[4] == FLAG_ON,
        line_fail: payload[5] == FLAG_ON,
        opv_short: payload[6] == FLAG_ON,
        inverter_voltage_too_low: payload[7] == FLAG_ON,
        inverter_voltage_too_high: payload[8] == FLAG_ON,
        over_temperature: payload[9] == FLAG_ON,
        fan_locked: payload[10] == FLAG_ON,
        battery_voltage_high: payload[11] == FLAG_ON,
        battery_low_alarm: payload[12] == FLAG_ON,
        battery_under_shutdown: payload[14] == FLAG_ON,
        over_load: payload[16] == FLAG_ON,
        eeprom_fault: payload[17] == FLAG_ON,
        inverter_over_current: payload[18] == FLAG_ON,
        inverter_soft_fail: payload[19] == FLAG_ON,
        self_test_fail: payload[20] == FLAG_ON,
        op_dc_voltage_over: payload[21] == FLAG_ON,
        bat_open: payload[22] == FLAG_ON,
        current_sensor_fail: payload[23] == FLAG_ON,
        battery_short: payload[24] == FLAG_ON,
        power_limit: payload[25] == FLAG_ON,
        pv_voltage_high: payload[26] == FLAG_ON,
        mppt_overload_fault: payload[27] == FLAG_ON,
        mppt_overload_warning: payload[28] == FLAG_ON,
        battery_too_low_to_charge: payload[29] == FLAG_ON,
    }
}

/// Reads the warning positions of `s` in order: the error of the first that
/// fails, if any.
pub fn check_warnings(s: &[u8]) -> (r: Option<Error>)
    requires
        s@.len() >= 30,
    ensures
        r == warnings_error_from(s@, 1),
{
    let mut i: usize = 1;
    while i < 30
        invariant
            1 <= i <= 30,
            s@.len() >= 30,
            warnings_error_from(s@, 1) == warnings_error_from(s@, i as int),
        decreases 30 - i,
    {
        if i != 13 && i != 15 {
            let single = slice_subrange(s, i, i + 1);
            assert(single@ =~= seq![s@[i as int]]);
            if !check_text(single) {
                return Some(Error::Utf8);
            }
            if s[i] != FLAG_ON && s[i] != FLAG_OFF {
                return Some(Error::InvalidWarningStatus);
            }
        }
        i = i + 1;
    }
    None
}

/// Whether position `i` of `s` holds a raised warning.
fn flag_at(s: &[u8], i: usize) -> (r: bool)
    requires
        i < s@.len(),
    ensures
        r == (s@[i as int] == FLAG_ON),
{
    s[i] == FLAG_ON
}

/// The warnings that `s` reports.
#[verifier::rlimit(50)]
fn read_warnings(s: &[u8]) -> (r: QPIWSResponse)
    requires
        s@.len() >= 30,
    ensures
        r == warnings_of(s@),
{
    let inverter_fault = flag_at(s, 1);
    let bus_over = flag_at(s, 2);
    let bus_under = flag_at(s, 3);
    let bus_soft_fail = flag_at(s, 4);
    let line_fail = flag_at(s, 5);
    let opv_short = flag_at(s, 6);
    let inverter_voltage_too_low = flag_at(s, 7);
    let inverter_voltage_too_high = flag_at(s, 8);
    let over_temperature = flag_at(s, 9);
    let fan_locked = flag_at(s, 10);
    let battery_voltage_high = flag_at(s, 11);
    let battery_low_alarm = flag_at(s, 12);
    let battery_under_shutdown = flag_at(s, 14);
    let over_load = flag_at(s, 16);
    let eeprom_fault = flag_at(s, 17);
    let inverter_over_current = flag_at(s, 18);
    let inverter_soft_fail = flag_at(s, 19);
    let self_test_fail = flag_at(s, 20);
    let op_dc_voltage_over = flag_at(s, 21);
    let bat_open = flag_at(s, 22);
    let current_sensor_fail = flag_at(s, 23);
    let battery_short = flag_at(s, 24);
    let power_limit = flag_at(s, 25);
    let pv_voltage_high = flag_at(s, 26);
    let mppt_overload_fault = flag_at(s, 27);
    let mppt_overload_warning = flag_at(s, 28);
    let battery_too_low_to_charge = flag_at(s, 29);
    QPIWSResponse {
        inverter_fault,
        bus_over,
        bus_under,
        bus_soft_fail,
        line_fail,
        opv_short,
        inverter_voltage_too_low,
        inverter_voltage_too_high,
        over_temperature,
        fan_locked,
        battery_voltage_high,
        battery_low_alarm,
        battery_under_shutdown,
        over_load,
        eeprom_fault,
        inverter_over_current,
        inverter_soft_fail,
        self_test_fail,
        op_dc_voltage_over,
        bat_open,
        current_sensor_fail,
        battery_short,
        power_limit,
        pv_voltage_high,
        mppt_overload_fault,
        mppt_overload_warning,
        battery_too_low_to_charge,
    }
}

impl Response for QPIWSResponse {
    /// One digit per position, `1` for a raised warning; the payload must
    /// reach the last warning position, and the first position that holds
    /// neither digit decides the error.
    open spec fn parse(payload: Seq<u8>) -> Result<Self, Error> {
        if payload.len() < 30 {
            Err(Error::InvalidPayload)
        } else {
            match warnings_error_from(payload, 1) {
                Some(e) => Err(e),
                None => Ok(warnings_of(payload)),
            }
        }
    }

    fn decode(src: &mut BytesMut) -> (r: Result<Self, Error>) {
        let s = buffer_bytes(src);
        if s.len() < 30 {
            return Err(Error::InvalidPayload);
        }
        match check_warnings(s) {
            Some(e) => {
                return Err(e);
            },
            None => {},
        }
        Ok(read_warnings(s))
    }
}

/// The warning that `v` reports at position `i` of the payload.
pub open spec fn warning_at(v: QPIWSResponse, i: int) -> bool {
    if i == 1 {
        v.inverter_fault
    } else if i == 2 {
        v.bus_over
    } else if i == 3 {
        v.bus_under
    } else if i == 4 {
        v.bus_soft_fail
    } else if i == 5 {
        v.line_fail
    } else if i == 6 {
        v.opv_short
    } else if i == 7 {
        v.inverter_voltage_too_low
    } else if i == 8 {
        v.inverter_voltage_too_high
    } else if i == 9 {
        v.over_temperature
    } else if i == 10 {
        v.fan_locked
    } else if i == 11 {
        v.battery_voltage_high
    } else if i == 12 {
        v.battery_low_alarm
    } else if i == 14 {
        v.battery_under_shutdown
    } else if i == 16 {
        v.over_load
    } else if i == 17 {
        v.eeprom_fault
    } else if i == 18 {
        v.inverter_over_current
    } else if i == 19 {
        v.inverter_soft_fail
    } else if i == 20 {
        v.self_test_fail
    } else if i == 21 {
        v.op_dc_voltage_over
    } else if i == 22 {
        v.bat_open
    } else if i == 23 {
        v.current_sensor_fail
    } else if i == 24 {
        v.battery_short
    } else if i == 25 {
        v.power_limit
    } else if i == 26 {
        v.pv_voltage_high
    } else if i == 27 {
        v.mppt_overload_fault
    } else if i == 28 {
        v.mppt_overload_warning
    } else if i == 29 {
        v.battery_too_low_to_charge
    } else {
        false
    }
}

impl ResponseWire for QPIWSResponse {
    open spec fn legal(&self) -> bool {
        true
    }

    /// Thirty-two digits: `1` at the position of each raised warning, `0`
    /// everywhere else.
    open spec fn wire(&self) -> Seq<u8> {
        Seq::new(32, |i: int| if warning_at(*self, i) { FLAG_ON } else { FLAG_OFF })
    }

    proof fn lemma_wire_round_trip(v: Self) {
        let w = v.wire();
        assert(warnings_of(w) == v);
        lemma_flags_clean(w, 1);
        assert forall|i: int| 0 <= i < w.len() implies w[i] != 0x0Du8 by {}
    }
}

} // verus!
