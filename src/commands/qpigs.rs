//! General status inquiry.
use vstd::prelude::*;
use bytes::BytesMut;
use crate::buffer::{buffer_bytes, buffer_contents};
use crate::command::{Command, Response, ResponseWire};
use crate::commands::fields::{
    check_fields, field_error, first_failure, lemma_all_fields_ok, lemma_no_failure, FieldKind,
};
use crate::error::Error;
use vstd::slice::slice_subrange;
use crate::text::{
    decimal_of, decimal_text, fields_of, join_fields, lemma_decimal_text, lemma_join_avoids,
    lemma_join_fields, lemma_usize_text, numeral_text, parse_decimal, parse_usize, split_fields,
    usize_of, views, check_text, is_ascii, text_ok, Decimal, SPACE,
};

verus! {

pub struct QPIGS;

impl Command for QPIGS {
    type Request = ();
    type Response = QPIGSResponse;

    /// `QPIGS`
    open spec fn spec_protocol_id() -> Seq<u8> {
        seq![0x51u8, 0x50, 0x49, 0x47, 0x53]
    }

    fn protocol_id() -> (r: Vec<u8>) {
        vec![0x51u8, 0x50, 0x49, 0x47, 0x53]
    }

    fn command_name() -> &'static str {
        "QueryDeviceGeneralStatus"
    }
}

/// The general status of a device. Voltages, frequencies and the battery
/// voltage are fixed-point decimals, as the device writes them.
#[derive(Debug, PartialEq, Eq, Structural)]
pub struct QPIGSResponse {
    pub grid_voltage: Decimal,
    pub grid_frequency: Decimal,
    pub ac_out_voltage: Decimal,
    pub ac_out_frequency: Decimal,
    pub ac_out_apparent_power: usize,
    pub ac_out_active_power: usize,
    pub out_load_percent: usize,
    pub bus_voltage: usize,
    pub battery_voltage: Decimal,
    pub battery_charge_current: usize,
    pub battery_capacity: usize,
    pub inverter_heat_sink_temp: usize,
    pub pv_input_current: usize,
    pub pv_input_voltage: Decimal,
    pub battery_scc_voltage: Decimal,
    pub battery_discharge_current: usize,
    pub device_status: DeviceStatus,
}

#[derive(Debug, Clone, Copy, PartialEq, Eq, Structural)]
pub struct DeviceStatus {
    pub charge_status: DeviceChargingStatus,
    pub active_load: bool,
}

#[derive(Debug, Clone, Copy, PartialEq, Eq, Structural)]
pub enum DeviceChargingStatus {
    NotCharging,
    ChargingFromSCC,
    ChargingFromAC,
    ChargingFromSCCAndAC,
}

/// The charging status that a three-digit code names: `000`, `110`, `101`, `111`.
pub open spec fn charging_status_of(a: u8, b: u8, c: u8) -> Option<DeviceChargingStatus> {
    if a == 0x30 && b == 0x30 && c == 0x30 {
        Some(DeviceChargingStatus::NotCharging)
    } else if a == 0x31 && b == 0x31 && c == 0x30 {
        Some(DeviceChargingStatus::ChargingFromSCC)
    } else if a == 0x31 && b == 0x30 && c == 0x31 {
        Some(DeviceChargingStatus::ChargingFromAC)
    } else if a == 0x31 && b == 0x31 && c == 0x31 {
        Some(DeviceChargingStatus::ChargingFromSCCAndAC)
    } else {
        None
    }
}

/// The device status bits: at position 3 the load flag (`1`: active), at
/// positions 5 to 7 the charging code.
pub open spec fn device_status_of(f: Seq<u8>) -> Option<DeviceStatus> {
    if f.len() < 8 {
        None
    } else {
        match charging_status_of(f[5], f[6], f[7]) {
            Some(c) => Some(DeviceStatus { charge_status: c, active_load: f[3] == 0x31 }),
            None => None,
        }
    }
}

/// Reads the device status bits.
pub fn device_status_from(f: &[u8]) -> (r: Option<DeviceStatus>)
    ensures
        r == device_status_of(f@),
{
    if f.len() < 8 {
        return None;
    }
    let (a, b, c) = (f[5], f[6], f[7]);
    let charge = if a == 0x30 && b == 0x30 && c == 0x30 {
        DeviceChargingStatus::NotCharging
    } else if a == 0x31 && b == 0x31 && c == 0x30 {
        DeviceChargingStatus::ChargingFromSCC
    } else if a == 0x31 && b == 0x30 && c == 0x31 {
        DeviceChargingStatus::ChargingFromAC
    } else if a == 0x31 && b == 0x31 && c == 0x31 {
        DeviceChargingStatus::ChargingFromSCCAndAC
    } else {
        return None;
    };
    Some(DeviceStatus { charge_status: charge, active_load: f[3] == 0x31 })
}

/// The error that the device status bits give, if any: the bits must reach
/// position 7, the flag and code positions must be well-encoded text, and the
/// code must be known.
pub open spec fn device_status_error(f: Seq<u8>) -> Option<Error> {
    if f.len() < 8 {
        Some(Error::InvalidDeviceStatus)
    } else if !text_ok(f.subrange(3, 4)) || !text_ok(f.subrange(5, 8)) {
        Some(Error::Utf8)
    } else if device_status_of(f) is Some {
        None
    } else {
        Some(Error::InvalidDeviceStatus)
    }
}

/// The error that the device status bits give, if any.
pub fn check_device_status(f: &[u8]) -> (r: Option<Error>)
    ensures
        r == device_status_error(f@),
{
    if f.len() < 8 {
        return Some(Error::InvalidDeviceStatus);
    }
    if !check_text(slice_subrange(f, 3, 4)) || !check_text(slice_subrange(f, 5, 8)) {
        return Some(Error::Utf8);
    }
    if device_status_from(f).is_some() {
        None
    } else {
        Some(Error::InvalidDeviceStatus)
    }
}

/// The digits of a charging status code.
pub open spec fn charging_code(c: DeviceChargingStatus) -> Seq<u8> {
    match c {
        DeviceChargingStatus::NotCharging => seq![0x30u8, 0x30, 0x30],
        DeviceChargingStatus::ChargingFromSCC => seq![0x31u8, 0x31, 0x30],
        DeviceChargingStatus::ChargingFromAC => seq![0x31u8, 0x30, 0x31],
        DeviceChargingStatus::ChargingFromSCCAndAC => seq![0x31u8, 0x31, 0x31],
    }
}

/// The eight status bits that a device sends: `000`, the load flag, `0`,
/// the charging code.
pub open spec fn device_status_text(s: DeviceStatus) -> Seq<u8> {
    seq![0x30u8, 0x30, 0x30, if s.active_load { 0x31u8 } else { 0x30u8 }, 0x30u8] + charging_code(
        s.charge_status,
    )
}

/// Written status bits read back, and hold no space or carriage return.
pub proof fn lemma_device_status_text(s: DeviceStatus)
    ensures
        device_status_of(device_status_text(s)) == Some(s),
        device_status_error(device_status_text(s)) is None,
        !device_status_text(s).contains(SPACE),
        !device_status_text(s).contains(0x0Du8),
{
    let t = device_status_text(s);
    let c = charging_code(s.charge_status);
    assert(t[5] == c[0] && t[6] == c[1] && t[7] == c[2]);
    assert forall|i: int| 0 <= i < t.len() implies t[i] != SPACE && t[i] != 0x0Du8 && t[i]
        < 0x80 by {
        if i >= 5 {
            assert(t[i] == c[i - 5]);
        }
    }
    assert(is_ascii(t.subrange(3, 4)));
    assert forall|i: int| 0 <= i < 3 implies #[trigger] t.subrange(5, 8)[i] < 0x80 by {
        assert(t.subrange(5, 8)[i] == t[5 + i]);
    }
}

/// The number of fields that a status payload must have.
pub const STATUS_FIELDS: usize = 17;

/// The fields of a status payload, in the order in which they are checked.
pub open spec fn status_plan() -> Seq<(usize, FieldKind)> {
    seq![(0usize, FieldKind::Fixed), (1usize, FieldKind::Fixed), (2usize, FieldKind::Fixed), (3usize, FieldKind::Fixed), (4usize, FieldKind::Unsigned), (5usize, FieldKind::Unsigned), (6usize, FieldKind::Unsigned), (7usize, FieldKind::Unsigned), (8usize, FieldKind::Fixed), (9usize, FieldKind::Unsigned), (10usize, FieldKind::Unsigned), (11usize, FieldKind::Unsigned), (12usize, FieldKind::Unsigned), (13usize, FieldKind::Fixed), (14usize, FieldKind::Fixed), (15usize, FieldKind::Unsigned), (16usize, FieldKind::Status)]
}

fn status_plan_vec() -> (r: Vec<(usize, FieldKind)>)
    ensures
        r@ == status_plan(),
{
    let r = vec![(0usize, FieldKind::Fixed), (1usize, FieldKind::Fixed), (2usize, FieldKind::Fixed), (3usize, FieldKind::Fixed), (4usize, FieldKind::Unsigned), (5usize, FieldKind::Unsigned), (6usize, FieldKind::Unsigned), (7usize, FieldKind::Unsigned), (8usize, FieldKind::Fixed), (9usize, FieldKind::Unsigned), (10usize, FieldKind::Unsigned), (11usize, FieldKind::Unsigned), (12usize, FieldKind::Unsigned), (13usize, FieldKind::Fixed), (14usize, FieldKind::Fixed), (15usize, FieldKind::Unsigned), (16usize, FieldKind::Status)];
    assert(r@ =~= status_plan());
    r
}

/// The status that checked fields report.
pub open spec fn status_of(fs: Seq<Seq<u8>>) -> QPIGSResponse {
    QPIGSResponse {
        grid_voltage: decimal_of(fs[0]).unwrap(),
        grid_frequency: decimal_of(fs[1]).unwrap(),
        ac_out_voltage: decimal_of(fs[2]).unwrap(),
        ac_out_frequency: decimal_of(fs[3]).unwrap(),
        ac_out_apparent_power: usize_of(fs[4]).unwrap(),
        ac_out_active_power: usize_of(fs[5]).unwrap(),
        out_load_percent: usize_of(fs[6]).unwrap(),
        bus_voltage: usize_of(fs[7]).unwrap(),
        battery_voltage: decimal_of(fs[8]).unwrap(),
        battery_charge_current: usize_of(fs[9]).unwrap(),
        battery_capacity: usize_of(fs[10]).unwrap(),
        inverter_heat_sink_temp: usize_of(fs[11]).unwrap(),
        pv_input_current: usize_of(fs[12]).unwrap(),
        pv_input_voltage: decimal_of(fs[13]).unwrap(),
        battery_scc_voltage: decimal_of(fs[14]).unwrap(),
        battery_discharge_current: usize_of(fs[15]).unwrap(),
        device_status: device_status_of(fs[16]).unwrap(),
    }
}

#[verifier::rlimit(60)]
fn read_status(fs: &Vec<Vec<u8>>) -> (r: QPIGSResponse)
    requires
        fs@.len() >= STATUS_FIELDS,
        first_failure(views(fs@), status_plan()) is None,
    ensures
        r == status_of(views(fs@)),
{
    proof {
        let v = views(fs@);
        let plan = status_plan();
        lemma_no_failure(v, plan);
        assert(field_error(plan[0].1, v[plan[0].0 as int]) is None);
        assert(field_error(plan[1].1, v[plan[1].0 as int]) is None);
        assert(field_error(plan[2].1, v[plan[2].0 as int]) is None);
        assert(field_error(plan[3].1, v[plan[3].0 as int]) is None);
        assert(field_error(plan[4].1, v[plan[4].0 as int]) is None);
        assert(field_error(plan[5].1, v[plan[5].0 as int]) is None);
        assert(field_error(plan[6].1, v[plan[6].0 as int]) is None);
        assert(field_error(plan[7].1, v[plan[7].0 as int]) is None);
        assert(field_error(plan[8].1, v[plan[8].0 as int]) is None);
        assert(field_error(plan[9].1, v[plan[9].0 as int]) is None);
        assert(field_error(plan[10].1, v[plan[10].0 as int]) is None);
        assert(field_error(plan[11].1, v[plan[11].0 as int]) is None);
        assert(field_error(plan[12].1, v[plan[12].0 as int]) is None);
        assert(field_error(plan[13].1, v[plan[13].0 as int]) is None);
        assert(field_error(plan[14].1, v[plan[14].0 as int]) is None);
        assert(field_error(plan[15].1, v[plan[15].0 as int]) is None);
        assert(field_error(plan[16].1, v[plan[16].0 as int]) is None);
    }
    let grid_voltage = parse_decimal(fs[0].as_slice()).unwrap();
    let grid_frequency = parse_decimal(fs[1].as_slice()).unwrap();
    let ac_out_voltage = parse_decimal(fs[2].as_slice()).unwrap();
    let ac_out_frequency = parse_decimal(fs[3].as_slice()).unwrap();
    let ac_out_apparent_power = parse_usize(fs[4].as_slice()).unwrap();
    let ac_out_active_power = parse_usize(fs[5].as_slice()).unwrap();
    let out_load_percent = parse_usize(fs[6].as_slice()).unwrap();
    let bus_voltage = parse_usize(fs[7].as_slice()).unwrap();
    let battery_voltage = parse_decimal(fs[8].as_slice()).unwrap();
    let battery_charge_current = parse_usize(fs[9].as_slice()).unwrap();
    let battery_capacity = parse_usize(fs[10].as_slice()).unwrap();
    let inverter_heat_sink_temp = parse_usize(fs[11].as_slice()).unwrap();
    let pv_input_current = parse_usize(fs[12].as_slice()).unwrap();
    let pv_input_voltage = parse_decimal(fs[13].as_slice()).unwrap();
    let battery_scc_voltage = parse_decimal(fs[14].as_slice()).unwrap();
    let battery_discharge_current = parse_usize(fs[15].as_slice()).unwrap();
    let device_status = device_status_from(fs[16].as_slice()).unwrap();
    QPIGSResponse {
        grid_voltage,
        grid_frequency,
        ac_out_voltage,
        ac_out_frequency,
        ac_out_apparent_power,
        ac_out_active_power,
        out_load_percent,
        bus_voltage,
        battery_voltage,
        battery_charge_current,
        battery_capacity,
        inverter_heat_sink_temp,
        pv_input_current,
        pv_input_voltage,
        battery_scc_voltage,
        battery_discharge_current,
        device_status,
    }
}

impl Response for QPIGSResponse {
    /// Space-separated fields in a fixed order; fields after the device
    /// status bits are not read.
    open spec fn parse(payload: Seq<u8>) -> Result<Self, Error> {
        let fs = fields_of(payload);
        if fs.len() < STATUS_FIELDS {
            Err(Error::InvalidPayload)
        } else {
            match first_failure(fs, status_plan()) {
                Some(e) => Err(e),
                None => Ok(status_of(fs)),
            }
        }
    }

    fn decode(src: &mut BytesMut) -> (r: Result<Self, Error>) {
        let fs = split_fields(buffer_bytes(src));
        if fs.len() < STATUS_FIELDS {
            return Err(Error::InvalidPayload);
        }
        let plan = status_plan_vec();
        match check_fields(&fs, &plan) {
            Some(e) => Err(e),
            None => Ok(read_status(&fs)),
        }
    }
}

/// The fields of the payload that a device sends for `v`.
pub open spec fn status_texts(v: QPIGSResponse) -> Seq<Seq<u8>> {
    seq![
        decimal_text(v.grid_voltage),
        decimal_text(v.grid_frequency),
        decimal_text(v.ac_out_voltage),
        decimal_text(v.ac_out_frequency),
        numeral_text(v.ac_out_apparent_power as nat, 10),
        numeral_text(v.ac_out_active_power as nat, 10),
        numeral_text(v.out_load_percent as nat, 10),
        numeral_text(v.bus_voltage as nat, 10),
        decimal_text(v.battery_voltage),
        numeral_text(v.battery_charge_current as nat, 10),
        numeral_text(v.battery_capacity as nat, 10),
        numeral_text(v.inverter_heat_sink_temp as nat, 10),
        numeral_text(v.pv_input_current as nat, 10),
        decimal_text(v.pv_input_voltage),
        decimal_text(v.battery_scc_voltage),
        numeral_text(v.battery_discharge_current as nat, 10),
        device_status_text(v.device_status),
    ]
}

/// What each field written for `v` holds.
#[verifier::rlimit(100)]
proof fn lemma_status_field_texts(v: QPIGSResponse)
    ensures
        decimal_of(status_texts(v)[0]) == Some(v.grid_voltage),
        is_ascii(status_texts(v)[0]),
        !status_texts(v)[0].contains(SPACE) && !status_texts(v)[0].contains(0x0Du8),
        decimal_of(status_texts(v)[1]) == Some(v.grid_frequency),
        is_ascii(status_texts(v)[1]),
        !status_texts(v)[1].contains(SPACE) && !status_texts(v)[1].contains(0x0Du8),
        decimal_of(status_texts(v)[2]) == Some(v.ac_out_voltage),
        is_ascii(status_texts(v)[2]),
        !status_texts(v)[2].contains(SPACE) && !status_texts(v)[2].contains(0x0Du8),
        decimal_of(status_texts(v)[3]) == Some(v.ac_out_frequency),
        is_ascii(status_texts(v)[3]),
        !status_texts(v)[3].contains(SPACE) && !status_texts(v)[3].contains(0x0Du8),
        usize_of(status_texts(v)[4]) == Some(v.ac_out_apparent_power),
        is_ascii(status_texts(v)[4]),
        !status_texts(v)[4].contains(SPACE) && !status_texts(v)[4].contains(0x0Du8),
        usize_of(status_texts(v)[5]) == Some(v.ac_out_active_power),
        is_ascii(status_texts(v)[5]),
        !status_texts(v)[5].contains(SPACE) && !status_texts(v)[5].contains(0x0Du8),
        usize_of(status_texts(v)[6]) == Some(v.out_load_percent),
        is_ascii(status_texts(v)[6]),
        !status_texts(v)[6].contains(SPACE) && !status_texts(v)[6].contains(0x0Du8),
        usize_of(status_texts(v)[7]) == Some(v.bus_voltage),
        is_ascii(status_texts(v)[7]),
        !status_texts(v)[7].contains(SPACE) && !status_texts(v)[7].contains(0x0Du8),
        decimal_of(status_texts(v)[8]) == Some(v.battery_voltage),
        is_ascii(status_texts(v)[8]),
        !status_texts(v)[8].contains(SPACE) && !status_texts(v)[8].contains(0x0Du8),
        usize_of(status_texts(v)[9]) == Some(v.battery_charge_current),
        is_ascii(status_texts(v)[9]),
        !status_texts(v)[9].contains(SPACE) && !status_texts(v)[9].contains(0x0Du8),
        usize_of(status_texts(v)[10]) == Some(v.battery_capacity),
        is_ascii(status_texts(v)[10]),
        !status_texts(v)[10].contains(SPACE) && !status_texts(v)[10].contains(0x0Du8),
        usize_of(status_texts(v)[11]) == Some(v.inverter_heat_sink_temp),
        is_ascii(status_texts(v)[11]),
        !status_texts(v)[11].contains(SPACE) && !status_texts(v)[11].contains(0x0Du8),
        usize_of(status_texts(v)[12]) == Some(v.pv_input_current),
        is_ascii(status_texts(v)[12]),
        !status_texts(v)[12].contains(SPACE) && !status_texts(v)[12].contains(0x0Du8),
        decimal_of(status_texts(v)[13]) == Some(v.pv_input_voltage),
        is_ascii(status_texts(v)[13]),
        !status_texts(v)[13].contains(SPACE) && !status_texts(v)[13].contains(0x0Du8),
        decimal_of(status_texts(v)[14]) == Some(v.battery_scc_voltage),
        is_ascii(status_texts(v)[14]),
        !status_texts(v)[14].contains(SPACE) && !status_texts(v)[14].contains(0x0Du8),
        usize_of(status_texts(v)[15]) == Some(v.battery_discharge_current),
        is_ascii(status_texts(v)[15]),
        !status_texts(v)[15].contains(SPACE) && !status_texts(v)[15].contains(0x0Du8),
        device_status_of(status_texts(v)[16]) == Some(v.device_status),
        device_status_error(status_texts(v)[16]) is None,
        !status_texts(v)[16].contains(SPACE) && !status_texts(v)[16].contains(0x0Du8),
{
    let fs = status_texts(v);
    lemma_decimal_text(v.grid_voltage);
    assert(fs[0] == decimal_text(v.grid_voltage));
    lemma_decimal_text(v.grid_frequency);
    assert(fs[1] == decimal_text(v.grid_frequency));
    lemma_decimal_text(v.ac_out_voltage);
    assert(fs[2] == decimal_text(v.ac_out_voltage));
    lemma_decimal_text(v.ac_out_frequency);
    assert(fs[3] == decimal_text(v.ac_out_frequency));
    lemma_usize_text(v.ac_out_apparent_power);
    assert(fs[4] == numeral_text(v.ac_out_apparent_power as nat, 10));
    lemma_usize_text(v.ac_out_active_power);
    assert(fs[5] == numeral_text(v.ac_out_active_power as nat, 10));
    lemma_usize_text(v.out_load_percent);
    assert(fs[6] == numeral_text(v.out_load_percent as nat, 10));
    lemma_usize_text(v.bus_voltage);
    assert(fs[7] == numeral_text(v.bus_voltage as nat, 10));
    lemma_decimal_text(v.battery_voltage);
    assert(fs[8] == decimal_text(v.battery_voltage));
    lemma_usize_text(v.battery_charge_current);
    assert(fs[9] == numeral_text(v.battery_charge_current as nat, 10));
    lemma_usize_text(v.battery_capacity);
    assert(fs[10] == numeral_text(v.battery_capacity as nat, 10));
    lemma_usize_text(v.inverter_heat_sink_temp);
    assert(fs[11] == numeral_text(v.inverter_heat_sink_temp as nat, 10));
    lemma_usize_text(v.pv_input_current);
    assert(fs[12] == numeral_text(v.pv_input_current as nat, 10));
    lemma_decimal_text(v.pv_input_voltage);
    assert(fs[13] == decimal_text(v.pv_input_voltage));
    lemma_decimal_text(v.battery_scc_voltage);
    assert(fs[14] == decimal_text(v.battery_scc_voltage));
    lemma_usize_text(v.battery_discharge_current);
    assert(fs[15] == numeral_text(v.battery_discharge_current as nat, 10));
    lemma_device_status_text(v.device_status);
    assert(fs[16] == device_status_text(v.device_status));
}

/// The fields written for `v` hold no space and no carriage return.
#[verifier::rlimit(100)]
proof fn lemma_status_texts_clean(v: QPIGSResponse)
    ensures
        forall|i: int|
            0 <= i < status_texts(v).len() ==> !(#[trigger] status_texts(v)[i]).contains(SPACE)
                && !status_texts(v)[i].contains(0x0Du8),
{
    let fs = status_texts(v);
    lemma_status_field_texts(v);
    assert forall|i: int| 0 <= i < fs.len() implies !(#[trigger] fs[i]).contains(SPACE)
        && !fs[i].contains(0x0Du8) by {
        if i == 0 {} else if i == 1 {} else if i == 2 {} else if i == 3 {} else if i == 4 {} else if i == 5 {} else if i == 6 {} else if i == 7 {} else if i == 8 {} else if i == 9 {} else if i == 10 {} else if i == 11 {} else if i == 12 {} else if i == 13 {} else if i == 14 {} else if i == 15 {} else if i == 16 {}
    }
}

/// Each field written for `v` holds the kind that the check plan asks of it.
#[verifier::rlimit(100)]
proof fn lemma_status_texts_checked(v: QPIGSResponse)
    ensures
        forall|j: int|
            0 <= j < status_plan().len() ==> (#[trigger] field_error(
                status_plan()[j].1,
                status_texts(v)[status_plan()[j].0 as int],
            )) is None,
        forall|j: int| 0 <= j < status_plan().len() ==> (#[trigger] status_plan()[j]).0 < 17,
{
    let fs = status_texts(v);
    lemma_status_field_texts(v);
    let plan = status_plan();
    assert forall|j: int| 0 <= j < plan.len() implies (#[trigger] plan[j]).0 < 17 by {
        if j == 0 {} else if j == 1 {} else if j == 2 {} else if j == 3 {} else if j == 4 {} else if j == 5 {} else if j == 6 {} else if j == 7 {} else if j == 8 {} else if j == 9 {} else if j == 10 {} else if j == 11 {} else if j == 12 {} else if j == 13 {} else if j == 14 {} else if j == 15 {} else if j == 16 {}
    }
    assert forall|j: int| 0 <= j < plan.len() implies (#[trigger] field_error(
        plan[j].1,
        fs[plan[j].0 as int],
    )) is None by {
        if j == 0 {} else if j == 1 {} else if j == 2 {} else if j == 3 {} else if j == 4 {} else if j == 5 {} else if j == 6 {} else if j == 7 {} else if j == 8 {} else if j == 9 {} else if j == 10 {} else if j == 11 {} else if j == 12 {} else if j == 13 {} else if j == 14 {} else if j == 15 {} else if j == 16 {}
    }
}

/// The fields written for `v` read back as `v`.
#[verifier::rlimit(100)]
proof fn lemma_status_texts_read_back(v: QPIGSResponse)
    ensures
        status_of(status_texts(v)) == v,
{
    lemma_status_field_texts(v);
}

impl ResponseWire for QPIGSResponse {
    open spec fn legal(&self) -> bool {
        true
    }

    /// The fields joined by single spaces.
    open spec fn wire(&self) -> Seq<u8> {
        join_fields(status_texts(*self))
    }

    proof fn lemma_wire_round_trip(v: Self) {
        let fs = status_texts(v);
        lemma_status_texts_clean(v);
        lemma_status_texts_checked(v);
        lemma_status_texts_read_back(v);
        lemma_join_fields(fs);
        lemma_join_avoids(fs, 0x0Du8);
        lemma_all_fields_ok(fs, status_plan());
    }
}

/// A device may send further fields after the ones that are read: a line
/// made of the fields written for `v`, then any fields free of spaces,
/// decodes to `v`.
pub proof fn lemma_status_with_trailing_fields(v: QPIGSResponse, extra: Seq<Seq<u8>>)
    requires
        forall|i: int| 0 <= i < extra.len() ==> !(#[trigger] extra[i]).contains(SPACE),
    ensures
        QPIGSResponse::parse(join_fields(status_texts(v) + extra)) == Ok::<QPIGSResponse, Error>(v),
{
    let fs = status_texts(v);
    let all = fs + extra;
    lemma_status_texts_clean(v);
    lemma_status_texts_checked(v);
    lemma_status_texts_read_back(v);
    assert forall|i: int| 0 <= i < all.len() implies !(#[trigger] all[i]).contains(SPACE) by {
        if i < fs.len() {
            assert(all[i] == fs[i]);
        } else {
            assert(all[i] == extra[i - fs.len()]);
        }
    }
    lemma_join_fields(all);
    let plan = status_plan();
    assert forall|j: int|
        0 <= j < plan.len() implies (#[trigger] field_error(plan[j].1, all[plan[j].0 as int])) is None by {
        assert(plan[j].0 < 17);
        assert(all[plan[j].0 as int] == fs[plan[j].0 as int]);
    }
    lemma_all_fields_ok(all, plan);
    assert(all.subrange(0, 17) =~= fs);
    assert(status_of(all) == status_of(fs));
}

} // verus!
