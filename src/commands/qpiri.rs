//! Rating information inquiry.
use vstd::prelude::*;
use bytes::BytesMut;
use crate::buffer::{buffer_bytes, buffer_contents};
use crate::command::{Command, Response, ResponseWire};
use crate::commands::fields::{
    check_fields, field_error, first_failure, lemma_all_fields_ok, lemma_no_failure, FieldKind,
};
use crate::error::Error;
use crate::text::{
    decimal_of, decimal_text, fields_of, i32_of, i32_text, join_fields, lemma_decimal_text,
    lemma_i32_text, lemma_join_avoids, lemma_join_fields, parse_decimal, parse_i32, split_fields,
    views, is_ascii, Decimal, MINUS, SPACE,
};

verus! {

pub struct QPIRI;

impl Command for QPIRI {
    type Request = ();
    type Response = QPIRIResponse;

    /// `QPIRI`
    open spec fn spec_protocol_id() -> Seq<u8> {
        seq![0x51u8, 0x50, 0x49, 0x52, 0x49]
    }

    fn protocol_id() -> (r: Vec<u8>) {
        vec![0x51u8, 0x50, 0x49, 0x52, 0x49]
    }

    fn command_name() -> &'static str {
        "QueryDeviceRatingInformation"
    }
}

/// The rating information of a device. Voltages, currents and frequencies
/// are fixed-point decimals, as the device writes them.
#[derive(Debug, PartialEq, Eq, Structural)]
pub struct QPIRIResponse {
    pub grid_rating_voltage: Decimal,
    pub grid_rating_current: Decimal,
    pub ac_output_rating_voltage: Decimal,
    pub ac_out_rating_frequency: Decimal,
    pub ac_out_rating_current: Decimal,
    pub ac_out_rating_apparent_power: i32,
    pub ac_out_rating_active_power: i32,
    pub battery_rating_voltage: Decimal,
    pub battery_recharge_voltage: Decimal,
    pub battery_under_voltage: Decimal,
    pub battery_bulk_voltage: Decimal,
    pub battery_float_voltage: Decimal,
    pub battery_type: BatteryType,
    pub max_ac_charging_current: i32,
    pub max_charging_current: i32,
    pub input_voltage_range: InputVoltageRange,
    pub output_source_priority: OutputSourcePriority,
    pub charge_source_priority: ChargeSourcePriority,
    pub machine_type: MachineType,
    pub topology: Topology,
    pub output_mode: OutputMode,
    pub battery_redischarge_voltage: Decimal,
}

#[derive(Debug, Clone, Copy, PartialEq, Eq, Structural)]
pub enum BatteryType {
    AGM,
    Flooded,
    User,
}

/// The battery type that a code names: `0`, `1`, `2`.
pub open spec fn battery_type_of(f: Seq<u8>) -> Option<BatteryType> {
    if f.len() == 1 && f[0] == 0x30 {
        Some(BatteryType::AGM)
    } else if f.len() == 1 && f[0] == 0x31 {
        Some(BatteryType::Flooded)
    } else if f.len() == 1 && f[0] == 0x32 {
        Some(BatteryType::User)
    } else {
        None
    }
}

pub fn battery_type_from(f: &[u8]) -> (r: Option<BatteryType>)
    ensures
        r == battery_type_of(f@),
{
    if f.len() == 1 && f[0] == 0x30 {
        Some(BatteryType::AGM)
    } else if f.len() == 1 && f[0] == 0x31 {
        Some(BatteryType::Flooded)
    } else if f.len() == 1 && f[0] == 0x32 {
        Some(BatteryType::User)
    } else {
        None
    }
}

#[derive(Debug, Clone, Copy, PartialEq, Eq, Structural)]
pub enum InputVoltageRange {
    Appliance,
    UPS,
}

/// The input voltage range that a code names: `0`, `1`.
pub open spec fn input_voltage_range_of(f: Seq<u8>) -> Option<InputVoltageRange> {
    if f.len() == 1 && f[0] == 0x30 {
        Some(InputVoltageRange::Appliance)
    } else if f.len() == 1 && f[0] == 0x31 {
        Some(InputVoltageRange::UPS)
    } else {
        None
    }
}

pub fn input_voltage_range_from(f: &[u8]) -> (r: Option<InputVoltageRange>)
    ensures
        r == input_voltage_range_of(f@),
{
    if f.len() == 1 && f[0] == 0x30 {
        Some(InputVoltageRange::Appliance)
    } else if f.len() == 1 && f[0] == 0x31 {
        Some(InputVoltageRange::UPS)
    } else {
        None
    }
}

#[derive(Debug, Clone, Copy, PartialEq, Eq, Structural)]
pub enum OutputSourcePriority {
    GridFirst,
    SolarFirst,
    SBUFirst,
}

/// The output source priority that a code names: `0`, `1`, `2`.
pub open spec fn output_source_priority_of(f: Seq<u8>) -> Option<OutputSourcePriority> {
    if f.len() == 1 && f[0] == 0x30 {
        Some(OutputSourcePriority::GridFirst)
    } else if f.len() == 1 && f[0] == 0x31 {
        Some(OutputSourcePriority::SolarFirst)
    } else if f.len() == 1 && f[0] == 0x32 {
        Some(OutputSourcePriority::SBUFirst)
    } else {
        None
    }
}

pub fn output_source_priority_from(f: &[u8]) -> (r: Option<OutputSourcePriority>)
    ensures
        r == output_source_priority_of(f@),
{
    if f.len() == 1 && f[0] == 0x30 {
        Some(OutputSourcePriority::GridFirst)
    } else if f.len() == 1 && f[0] == 0x31 {
        Some(OutputSourcePriority::SolarFirst)
    } else if f.len() == 1 && f[0] == 0x32 {
        Some(OutputSourcePriority::SBUFirst)
    } else {
        None
    }
}

#[derive(Debug, Clone, Copy, PartialEq, Eq, Structural)]
pub enum ChargeSourcePriority {
    GridFirst,
    SolarFirst,
    SolarAndGrid,
    OnlySolar,
}

/// The charge source priority that a code names: `0`, `1`, `2`, `3`.
pub open spec fn charge_source_priority_of(f: Seq<u8>) -> Option<ChargeSourcePriority> {
    if f.len() == 1 && f[0] == 0x30 {
        Some(ChargeSourcePriority::GridFirst)
    } else if f.len() == 1 && f[0] == 0x31 {
        Some(ChargeSourcePriority::SolarFirst)
    } else if f.len() == 1 && f[0] == 0x32 {
        Some(ChargeSourcePriority::SolarAndGrid)
    } else if f.len() == 1 && f[0] == 0x33 {
        Some(ChargeSourcePriority::OnlySolar)
    } else {
        None
    }
}

pub fn charge_source_priority_from(f: &[u8]) -> (r: Option<ChargeSourcePriority>)
    ensures
        r == charge_source_priority_of(f@),
{
    if f.len() == 1 && f[0] == 0x30 {
        Some(ChargeSourcePriority::GridFirst)
    } else if f.len() == 1 && f[0] == 0x31 {
        Some(ChargeSourcePriority::SolarFirst)
    } else if f.len() == 1 && f[0] == 0x32 {
        Some(ChargeSourcePriority::SolarAndGrid)
    } else if f.len() == 1 && f[0] == 0x33 {
        Some(ChargeSourcePriority::OnlySolar)
    } else {
        None
    }
}

#[derive(Debug, Clone, Copy, PartialEq, Eq, Structural)]
pub enum MachineType {
    GridTie,
    OffGrid,
    Hybrid,
}

/// The machine type that a code names: `00`, `01`, `10`.
pub open spec fn machine_type_of(f: Seq<u8>) -> Option<MachineType> {
    if f.len() == 2 && f[0] == 0x30 && f[1] == 0x30 {
        Some(MachineType::GridTie)
    } else if f.len() == 2 && f[0] == 0x30 && f[1] == 0x31 {
        Some(MachineType::OffGrid)
    } else if f.len() == 2 && f[0] == 0x31 && f[1] == 0x30 {
        Some(MachineType::Hybrid)
    } else {
        None
    }
}

pub fn machine_type_from(f: &[u8]) -> (r: Option<MachineType>)
    ensures
        r == machine_type_of(f@),
{
    if f.len() == 2 && f[0] == 0x30 && f[1] == 0x30 {
        Some(MachineType::GridTie)
    } else if f.len() == 2 && f[0] == 0x30 && f[1] == 0x31 {
        Some(MachineType::OffGrid)
    } else if f.len() == 2 && f[0] == 0x31 && f[1] == 0x30 {
        Some(MachineType::Hybrid)
    } else {
        None
    }
}

#[derive(Debug, Clone, Copy, PartialEq, Eq, Structural)]
pub enum Topology {
    Transformerless,
    Transformer,
}

/// The topology that a code names: `0`, `1`.
pub open spec fn topology_of(f: Seq<u8>) -> Option<Topology> {
    if f.len() == 1 && f[0] == 0x30 {
        Some(Topology::Transformerless)
    } else if f.len() == 1 && f[0] == 0x31 {
        Some(Topology::Transformer)
    } else {
        None
    }
}

pub fn topology_from(f: &[u8]) -> (r: Option<Topology>)
    ensures
        r == topology_of(f@),
{
    if f.len() == 1 && f[0] == 0x30 {
        Some(Topology::Transformerless)
    } else if f.len() == 1 && f[0] == 0x31 {
        Some(Topology::Transformer)
    } else {
        None
    }
}

#[derive(Debug, Clone, Copy, PartialEq, Eq, Structural)]
pub enum OutputMode {
    SingleMachineOutput,
    ParallelOutput,
    Phase1Of3Output,
    Phase2Of3Output,
    Phase3Of3Output,
}

/// The output mode that a code names: `0`, `1`, `2`, `3`, `4`.
pub open spec fn output_mode_of(f: Seq<u8>) -> Option<OutputMode> {
    if f.len() == 1 && f[0] == 0x30 {
        Some(OutputMode::SingleMachineOutput)
    } else if f.len() == 1 && f[0] == 0x31 {
        Some(OutputMode::ParallelOutput)
    } else if f.len() == 1 && f[0] == 0x32 {
        Some(OutputMode::Phase1Of3Output)
    } else if f.len() == 1 && f[0] == 0x33 {
        Some(OutputMode::Phase2Of3Output)
    } else if f.len() == 1 && f[0] == 0x34 {
        Some(OutputMode::Phase3Of3Output)
    } else {
        None
    }
}

pub fn output_mode_from(f: &[u8]) -> (r: Option<OutputMode>)
    ensures
        r == output_mode_of(f@),
{
    if f.len() == 1 && f[0] == 0x30 {
        Some(OutputMode::SingleMachineOutput)
    } else if f.len() == 1 && f[0] == 0x31 {
        Some(OutputMode::ParallelOutput)
    } else if f.len() == 1 && f[0] == 0x32 {
        Some(OutputMode::Phase1Of3Output)
    } else if f.len() == 1 && f[0] == 0x33 {
        Some(OutputMode::Phase2Of3Output)
    } else if f.len() == 1 && f[0] == 0x34 {
        Some(OutputMode::Phase3Of3Output)
    } else {
        None
    }
}

/// The code that names a battery type.
pub open spec fn battery_type_code(e: BatteryType) -> Seq<u8> {
    match e {
        BatteryType::AGM => seq![0x30u8],
        BatteryType::Flooded => seq![0x31u8],
        BatteryType::User => seq![0x32u8],
    }
}

/// A code reads back as what it names, and holds no space or carriage return.
pub proof fn lemma_battery_type_code(e: BatteryType)
    ensures
        battery_type_of(battery_type_code(e)) == Some(e),
        is_ascii(battery_type_code(e)),
        !battery_type_code(e).contains(SPACE),
        !battery_type_code(e).contains(0x0Du8),
{
    let c = battery_type_code(e);
    assert forall|i: int| 0 <= i < c.len() implies c[i] != SPACE && c[i] != 0x0Du8 && c[i] < 0x80 by {}
}

/// The code that names a input voltage range.
pub open spec fn input_voltage_range_code(e: InputVoltageRange) -> Seq<u8> {
    match e {
        InputVoltageRange::Appliance => seq![0x30u8],
        InputVoltageRange::UPS => seq![0x31u8],
    }
}

/// A code reads back as what it names, and holds no space or carriage return.
pub proof fn lemma_input_voltage_range_code(e: InputVoltageRange)
    ensures
        input_voltage_range_of(input_voltage_range_code(e)) == Some(e),
        is_ascii(input_voltage_range_code(e)),
        !input_voltage_range_code(e).contains(SPACE),
        !input_voltage_range_code(e).contains(0x0Du8),
{
    let c = input_voltage_range_code(e);
    assert forall|i: int| 0 <= i < c.len() implies c[i] != SPACE && c[i] != 0x0Du8 && c[i] < 0x80 by {}
}

/// The code that names a output source priority.
pub open spec fn output_source_priority_code(e: OutputSourcePriority) -> Seq<u8> {
    match e {
        OutputSourcePriority::GridFirst => seq![0x30u8],
        OutputSourcePriority::SolarFirst => seq![0x31u8],
        OutputSourcePriority::SBUFirst => seq![0x32u8],
    }
}

/// A code reads back as what it names, and holds no space or carriage return.
pub proof fn lemma_output_source_priority_code(e: OutputSourcePriority)
    ensures
        output_source_priority_of(output_source_priority_code(e)) == Some(e),
        is_ascii(output_source_priority_code(e)),
        !output_source_priority_code(e).contains(SPACE),
        !output_source_priority_code(e).contains(0x0Du8),
{
    let c = output_source_priority_code(e);
    assert forall|i: int| 0 <= i < c.len() implies c[i] != SPACE && c[i] != 0x0Du8 && c[i] < 0x80 by {}
}

/// The code that names a charge source priority.
pub open spec fn charge_source_priority_code(e: ChargeSourcePriority) -> Seq<u8> {
    match e {
        ChargeSourcePriority::GridFirst => seq![0x30u8],
        ChargeSourcePriority::SolarFirst => seq![0x31u8],
        ChargeSourcePriority::SolarAndGrid => seq![0x32u8],
        ChargeSourcePriority::OnlySolar => seq![0x33u8],
    }
}

/// A code reads back as what it names, and holds no space or carriage return.
pub proof fn lemma_charge_source_priority_code(e: ChargeSourcePriority)
    ensures
        charge_source_priority_of(charge_source_priority_code(e)) == Some(e),
        is_ascii(charge_source_priority_code(e)),
        !charge_source_priority_code(e).contains(SPACE),
        !charge_source_priority_code(e).contains(0x0Du8),
{
    let c = charge_source_priority_code(e);
    assert forall|i: int| 0 <= i < c.len() implies c[i] != SPACE && c[i] != 0x0Du8 && c[i] < 0x80 by {}
}

/// The code that names a machine type.
pub open spec fn machine_type_code(e: MachineType) -> Seq<u8> {
    match e {
        MachineType::GridTie => seq![0x30u8, 0x30u8],
        MachineType::OffGrid => seq![0x30u8, 0x31u8],
        MachineType::Hybrid => seq![0x31u8, 0x30u8],
    }
}

/// A code reads back as what it names, and holds no space or carriage return.
pub proof fn lemma_machine_type_code(e: MachineType)
    ensures
        machine_type_of(machine_type_code(e)) == Some(e),
        is_ascii(machine_type_code(e)),
        !machine_type_code(e).contains(SPACE),
        !machine_type_code(e).contains(0x0Du8),
{
    let c = machine_type_code(e);
    assert forall|i: int| 0 <= i < c.len() implies c[i] != SPACE && c[i] != 0x0Du8 && c[i] < 0x80 by {}
}

/// The code that names a topology.
pub open spec fn topology_code(e: Topology) -> Seq<u8> {
    match e {
        Topology::Transformerless => seq![0x30u8],
        Topology::Transformer => seq![0x31u8],
    }
}

/// A code reads back as what it names, and holds no space or carriage return.
pub proof fn lemma_topology_code(e: Topology)
    ensures
        topology_of(topology_code(e)) == Some(e),
        is_ascii(topology_code(e)),
        !topology_code(e).contains(SPACE),
        !topology_code(e).contains(0x0Du8),
{
    let c = topology_code(e);
    assert forall|i: int| 0 <= i < c.len() implies c[i] != SPACE && c[i] != 0x0Du8 && c[i] < 0x80 by {}
}

/// The code that names a output mode.
pub open spec fn output_mode_code(e: OutputMode) -> Seq<u8> {
    match e {
        OutputMode::SingleMachineOutput => seq![0x30u8],
        OutputMode::ParallelOutput => seq![0x31u8],
        OutputMode::Phase1Of3Output => seq![0x32u8],
        OutputMode::Phase2Of3Output => seq![0x33u8],
        OutputMode::Phase3Of3Output => seq![0x34u8],
    }
}

/// A code reads back as what it names, and holds no space or carriage return.
pub proof fn lemma_output_mode_code(e: OutputMode)
    ensures
        output_mode_of(output_mode_code(e)) == Some(e),
        is_ascii(output_mode_code(e)),
        !output_mode_code(e).contains(SPACE),
        !output_mode_code(e).contains(0x0Du8),
{
    let c = output_mode_code(e);
    assert forall|i: int| 0 <= i < c.len() implies c[i] != SPACE && c[i] != 0x0Du8 && c[i] < 0x80 by {}
}

/// The number of fields that a rating payload must have.
pub const RATING_FIELDS: usize = 23;

/// The fields of a rating payload, in the order in which they are checked:
/// the numbers and the encoding of the code fields in field order, then the
/// codes. Field 18 is not read.
pub open spec fn rating_plan() -> Seq<(usize, FieldKind)> {
    seq![(0usize, FieldKind::Fixed), (1usize, FieldKind::Fixed), (2usize, FieldKind::Fixed), (3usize, FieldKind::Fixed), (4usize, FieldKind::Fixed), (5usize, FieldKind::Signed), (6usize, FieldKind::Signed), (7usize, FieldKind::Fixed), (8usize, FieldKind::Fixed), (9usize, FieldKind::Fixed), (10usize, FieldKind::Fixed), (11usize, FieldKind::Fixed), (12usize, FieldKind::Text), (13usize, FieldKind::Signed), (14usize, FieldKind::Signed), (15usize, FieldKind::Text), (16usize, FieldKind::Text), (17usize, FieldKind::Text), (19usize, FieldKind::Text), (20usize, FieldKind::Text), (21usize, FieldKind::Text), (22usize, FieldKind::Fixed), (12usize, FieldKind::BatteryType), (15usize, FieldKind::InputVoltageRange), (16usize, FieldKind::OutputSourcePriority), (17usize, FieldKind::ChargeSourcePriority), (19usize, FieldKind::MachineType), (20usize, FieldKind::Topology), (21usize, FieldKind::OutputMode)]
}

fn rating_plan_vec() -> (r: Vec<(usize, FieldKind)>)
    ensures
        r@ == rating_plan(),
{
    let r = vec![(0usize, FieldKind::Fixed), (1usize, FieldKind::Fixed), (2usize, FieldKind::Fixed), (3usize, FieldKind::Fixed), (4usize, FieldKind::Fixed), (5usize, FieldKind::Signed), (6usize, FieldKind::Signed), (7usize, FieldKind::Fixed), (8usize, FieldKind::Fixed), (9usize, FieldKind::Fixed), (10usize, FieldKind::Fixed), (11usize, FieldKind::Fixed), (12usize, FieldKind::Text), (13usize, FieldKind::Signed), (14usize, FieldKind::Signed), (15usize, FieldKind::Text), (16usize, FieldKind::Text), (17usize, FieldKind::Text), (19usize, FieldKind::Text), (20usize, FieldKind::Text), (21usize, FieldKind::Text), (22usize, FieldKind::Fixed), (12usize, FieldKind::BatteryType), (15usize, FieldKind::InputVoltageRange), (16usize, FieldKind::OutputSourcePriority), (17usize, FieldKind::ChargeSourcePriority), (19usize, FieldKind::MachineType), (20usize, FieldKind::Topology), (21usize, FieldKind::OutputMode)];
    assert(r@ =~= rating_plan());
    r
}

/// The ratings that checked fields report.
pub open spec fn rating_of(fs: Seq<Seq<u8>>) -> QPIRIResponse {
    QPIRIResponse {
        grid_rating_voltage: decimal_of(fs[0]).unwrap(),
        grid_rating_current: decimal_of(fs[1]).unwrap(),
        ac_output_rating_voltage: decimal_of(fs[2]).unwrap(),
        ac_out_rating_frequency: decimal_of(fs[3]).unwrap(),
        ac_out_rating_current: decimal_of(fs[4]).unwrap(),
        ac_out_rating_apparent_power: i32_of(fs[5]).unwrap(),
        ac_out_rating_active_power: i32_of(fs[6]).unwrap(),
        battery_rating_voltage: decimal_of(fs[7]).unwrap(),
        battery_recharge_voltage: decimal_of(fs[8]).unwrap(),
        battery_under_voltage: decimal_of(fs[9]).unwrap(),
        battery_bulk_voltage: decimal_of(fs[10]).unwrap(),
        battery_float_voltage: decimal_of(fs[11]).unwrap(),
        battery_type: battery_type_of(fs[12]).unwrap(),
        max_ac_charging_current: i32_of(fs[13]).unwrap(),
        max_charging_current: i32_of(fs[14]).unwrap(),
        input_voltage_range: input_voltage_range_of(fs[15]).unwrap(),
        output_source_priority: output_source_priority_of(fs[16]).unwrap(),
        charge_source_priority: charge_source_priority_of(fs[17]).unwrap(),
        machine_type: machine_type_of(fs[19]).unwrap(),
        topology: topology_of(fs[20]).unwrap(),
        output_mode: output_mode_of(fs[21]).unwrap(),
        battery_redischarge_voltage: decimal_of(fs[22]).unwrap(),
    }
}

#[verifier::rlimit(80)]
fn read_rating(fs: &Vec<Vec<u8>>) -> (r: QPIRIResponse)
    requires
        fs@.len() >= RATING_FIELDS,
        first_failure(views(fs@), rating_plan()) is None,
    ensures
        r == rating_of(views(fs@)),
{
    proof {
        let v = views(fs@);
        let plan = rating_plan();
        lemma_no_failure(v, plan);
        assert(field_error(plan[0].1, v[plan[0].0 as int]) is None);
        assert(field_error(plan[1].1, v[plan[1].0 as int]) is None);
        assert(field_error(plan[2].1, v[plan[2].0 as int]) is None);
        assert(field_error(plan[3].1, v[plan[3].0 as int]) is None);
        assert(field_error(plan[4].1, v[plan[4].0 as int]) is None);
        assert(field_error(plan[5].1, v[plan[5].0 as int]) is None);
        assert(field_error(plan[6].1, v[plan[6].0 as int]) is None);
        assert(field_error(plan[7].1, v[plan[7].0 as int]) is None);
        assert(field_error(plan[8].1, v[plan[8].0 as int]) is None);
        assert(field_error(plan[9].1, v[plan[9].0 as int]) is None);
        assert(field_error(plan[10].1, v[plan[10].0 as int]) is None);
        assert(field_error(plan[11].1, v[plan[11].0 as int]) is None);
        assert(field_error(plan[12].1, v[plan[12].0 as int]) is None);
        assert(field_error(plan[13].1, v[plan[13].0 as int]) is None);
        assert(field_error(plan[14].1, v[plan[14].0 as int]) is None);
        assert(field_error(plan[15].1, v[plan[15].0 as int]) is None);
        assert(field_error(plan[16].1, v[plan[16].0 as int]) is None);
        assert(field_error(plan[17].1, v[plan[17].0 as int]) is None);
        assert(field_error(plan[18].1, v[plan[18].0 as int]) is None);
        assert(field_error(plan[19].1, v[plan[19].0 as int]) is None);
        assert(field_error(plan[20].1, v[plan[20].0 as int]) is None);
        assert(field_error(plan[21].1, v[plan[21].0 as int]) is None);
        assert(field_error(plan[22].1, v[plan[22].0 as int]) is None);
        assert(field_error(plan[23].1, v[plan[23].0 as int]) is None);
        assert(field_error(plan[24].1, v[plan[24].0 as int]) is None);
        assert(field_error(plan[25].1, v[plan[25].0 as int]) is None);
        assert(field_error(plan[26].1, v[plan[26].0 as int]) is None);
        assert(field_error(plan[27].1, v[plan[27].0 as int]) is None);
        assert(field_error(plan[28].1, v[plan[28].0 as int]) is None);
    }
    let grid_rating_voltage = parse_decimal(fs[0].as_slice()).unwrap();
    let grid_rating_current = parse_decimal(fs[1].as_slice()).unwrap();
    let ac_output_rating_voltage = parse_decimal(fs[2].as_slice()).unwrap();
    let ac_out_rating_frequency = parse_decimal(fs[3].as_slice()).unwrap();
    let ac_out_rating_current = parse_decimal(fs[4].as_slice()).unwrap();
    let ac_out_rating_apparent_power = parse_i32(fs[5].as_slice()).unwrap();
    let ac_out_rating_active_power = parse_i32(fs[6].as_slice()).unwrap();
    let battery_rating_voltage = parse_decimal(fs[7].as_slice()).unwrap();
    let battery_recharge_voltage = parse_decimal(fs[8].as_slice()).unwrap();
    let battery_under_voltage = parse_decimal(fs[9].as_slice()).unwrap();
    let battery_bulk_voltage = parse_decimal(fs[10].as_slice()).unwrap();
    let battery_float_voltage = parse_decimal(fs[11].as_slice()).unwrap();
    let battery_type = battery_type_from(fs[12].as_slice()).unwrap();
    let max_ac_charging_current = parse_i32(fs[13].as_slice()).unwrap();
    let max_charging_current = parse_i32(fs[14].as_slice()).unwrap();
    let input_voltage_range = input_voltage_range_from(fs[15].as_slice()).unwrap();
    let output_source_priority = output_source_priority_from(fs[16].as_slice()).unwrap();
    let charge_source_priority = charge_source_priority_from(fs[17].as_slice()).unwrap();
    let machine_type = machine_type_from(fs[19].as_slice()).unwrap();
    let topology = topology_from(fs[20].as_slice()).unwrap();
    let output_mode = output_mode_from(fs[21].as_slice()).unwrap();
    let battery_redischarge_voltage = parse_decimal(fs[22].as_slice()).unwrap();
    QPIRIResponse {
        grid_rating_voltage,
        grid_rating_current,
        ac_output_rating_voltage,
        ac_out_rating_frequency,
        ac_out_rating_current,
        ac_out_rating_apparent_power,
        ac_out_rating_active_power,
        battery_rating_voltage,
        battery_recharge_voltage,
        battery_under_voltage,
        battery_bulk_voltage,
        battery_float_voltage,
        battery_type,
        max_ac_charging_current,
        max_charging_current,
        input_voltage_range,
        output_source_priority,
        charge_source_priority,
        machine_type,
        topology,
        output_mode,
        battery_redischarge_voltage,
    }
}

impl Response for QPIRIResponse {
    /// Space-separated fields in a fixed order; fields after the battery
    /// re-discharge voltage are not read.
    open spec fn parse(payload: Seq<u8>) -> Result<Self, Error> {
        let fs = fields_of(payload);
        if fs.len() < RATING_FIELDS {
            Err(Error::InvalidPayload)
        } else {
            match first_failure(fs, rating_plan()) {
                Some(e) => Err(e),
                None => Ok(rating_of(fs)),
            }
        }
    }

    fn decode(src: &mut BytesMut) -> (r: Result<Self, Error>) {
        let fs = split_fields(buffer_bytes(src));
        if fs.len() < RATING_FIELDS {
            return Err(Error::InvalidPayload);
        }
        let plan = rating_plan_vec();
        match check_fields(&fs, &plan) {
            Some(e) => Err(e),
            None => Ok(read_rating(&fs)),
        }
    }
}

/// The fields of the payload that a device sends for `v`.
pub open spec fn rating_texts(v: QPIRIResponse) -> Seq<Seq<u8>> {
    seq![
        decimal_text(v.grid_rating_voltage),
        decimal_text(v.grid_rating_current),
        decimal_text(v.ac_output_rating_voltage),
        decimal_text(v.ac_out_rating_frequency),
        decimal_text(v.ac_out_rating_current),
        i32_text(v.ac_out_rating_apparent_power),
        i32_text(v.ac_out_rating_active_power),
        decimal_text(v.battery_rating_voltage),
        decimal_text(v.battery_recharge_voltage),
        decimal_text(v.battery_under_voltage),
        decimal_text(v.battery_bulk_voltage),
        decimal_text(v.battery_float_voltage),
        battery_type_code(v.battery_type),
        i32_text(v.max_ac_charging_current),
        i32_text(v.max_charging_current),
        input_voltage_range_code(v.input_voltage_range),
        output_source_priority_code(v.output_source_priority),
        charge_source_priority_code(v.charge_source_priority),
        seq![MINUS],
        machine_type_code(v.machine_type),
        topology_code(v.topology),
        output_mode_code(v.output_mode),
        decimal_text(v.battery_redischarge_voltage),
    ]
}

/// What each field written for `v` holds.
#[verifier::rlimit(100)]
proof fn lemma_rating_field_texts(v: QPIRIResponse)
    ensures
        decimal_of(rating_texts(v)[0]) == Some(v.grid_rating_voltage),
        is_ascii(rating_texts(v)[0]),
        !rating_texts(v)[0].contains(SPACE) && !rating_texts(v)[0].contains(0x0Du8),
        decimal_of(rating_texts(v)[1]) == Some(v.grid_rating_current),
        is_ascii(rating_texts(v)[1]),
        !rating_texts(v)[1].contains(SPACE) && !rating_texts(v)[1].contains(0x0Du8),
        decimal_of(rating_texts(v)[2]) == Some(v.ac_output_rating_voltage),
        is_ascii(rating_texts(v)[2]),
        !rating_texts(v)[2].contains(SPACE) && !rating_texts(v)[2].contains(0x0Du8),
        decimal_of(rating_texts(v)[3]) == Some(v.ac_out_rating_frequency),
        is_ascii(rating_texts(v)[3]),
        !rating_texts(v)[3].contains(SPACE) && !rating_texts(v)[3].contains(0x0Du8),
        decimal_of(rating_texts(v)[4]) == Some(v.ac_out_rating_current),
        is_ascii(rating_texts(v)[4]),
        !rating_texts(v)[4].contains(SPACE) && !rating_texts(v)[4].contains(0x0Du8),
        i32_of(rating_texts(v)[5]) == Some(v.ac_out_rating_apparent_power),
        is_ascii(rating_texts(v)[5]),
        !rating_texts(v)[5].contains(SPACE) && !rating_texts(v)[5].contains(0x0Du8),
        i32_of(rating_texts(v)[6]) == Some(v.ac_out_rating_active_power),
        is_ascii(rating_texts(v)[6]),
        !rating_texts(v)[6].contains(SPACE) && !rating_texts(v)[6].contains(0x0Du8),
        decimal_of(rating_texts(v)[7]) == Some(v.battery_rating_voltage),
        is_ascii(rating_texts(v)[7]),
        !rating_texts(v)[7].contains(SPACE) && !rating_texts(v)[7].contains(0x0Du8),
        decimal_of(rating_texts(v)[8]) == Some(v.battery_recharge_voltage),
        is_ascii(rating_texts(v)[8]),
        !rating_texts(v)[8].contains(SPACE) && !rating_texts(v)[8].contains(0x0Du8),
        decimal_of(rating_texts(v)[9]) == Some(v.battery_under_voltage),
        is_ascii(rating_texts(v)[9]),
        !rating_texts(v)[9].contains(SPACE) && !rating_texts(v)[9].contains(0x0Du8),
        decimal_of(rating_texts(v)[10]) == Some(v.battery_bulk_voltage),
        is_ascii(rating_texts(v)[10]),
        !rating_texts(v)[10].contains(SPACE) && !rating_texts(v)[10].contains(0x0Du8),
        decimal_of(rating_texts(v)[11]) == Some(v.battery_float_voltage),
        is_ascii(rating_texts(v)[11]),
        !rating_texts(v)[11].contains(SPACE) && !rating_texts(v)[11].contains(0x0Du8),
        battery_type_of(rating_texts(v)[12]) == Some(v.battery_type),
        is_ascii(rating_texts(v)[12]),
        !rating_texts(v)[12].contains(SPACE) && !rating_texts(v)[12].contains(0x0Du8),
        i32_of(rating_texts(v)[13]) == Some(v.max_ac_charging_current),
        is_ascii(rating_texts(v)[13]),
        !rating_texts(v)[13].contains(SPACE) && !rating_texts(v)[13].contains(0x0Du8),
        i32_of(rating_texts(v)[14]) == Some(v.max_charging_current),
        is_ascii(rating_texts(v)[14]),
        !rating_texts(v)[14].contains(SPACE) && !rating_texts(v)[14].contains(0x0Du8),
        input_voltage_range_of(rating_texts(v)[15]) == Some(v.input_voltage_range),
        is_ascii(rating_texts(v)[15]),
        !rating_texts(v)[15].contains(SPACE) && !rating_texts(v)[15].contains(0x0Du8),
        output_source_priority_of(rating_texts(v)[16]) == Some(v.output_source_priority),
        is_ascii(rating_texts(v)[16]),
        !rating_texts(v)[16].contains(SPACE) && !rating_texts(v)[16].contains(0x0Du8),
        charge_source_priority_of(rating_texts(v)[17]) == Some(v.charge_source_priority),
        is_ascii(rating_texts(v)[17]),
        !rating_texts(v)[17].contains(SPACE) && !rating_texts(v)[17].contains(0x0Du8),
        is_ascii(rating_texts(v)[18]),
        !rating_texts(v)[18].contains(SPACE) && !rating_texts(v)[18].contains(0x0Du8),
        machine_type_of(rating_texts(v)[19]) == Some(v.machine_type),
        is_ascii(rating_texts(v)[19]),
        !rating_texts(v)[19].contains(SPACE) && !rating_texts(v)[19].contains(0x0Du8),
        topology_of(rating_texts(v)[20]) == Some(v.topology),
        is_ascii(rating_texts(v)[20]),
        !rating_texts(v)[20].contains(SPACE) && !rating_texts(v)[20].contains(0x0Du8),
        output_mode_of(rating_texts(v)[21]) == Some(v.output_mode),
        is_ascii(rating_texts(v)[21]),
        !rating_texts(v)[21].contains(SPACE) && !rating_texts(v)[21].contains(0x0Du8),
        decimal_of(rating_texts(v)[22]) == Some(v.battery_redischarge_voltage),
        is_ascii(rating_texts(v)[22]),
        !rating_texts(v)[22].contains(SPACE) && !rating_texts(v)[22].contains(0x0Du8),
{
    let fs = rating_texts(v);
    lemma_decimal_text(v.grid_rating_voltage);
    assert(fs[0] == decimal_text(v.grid_rating_voltage));
    lemma_decimal_text(v.grid_rating_current);
    assert(fs[1] == decimal_text(v.grid_rating_current));
    lemma_decimal_text(v.ac_output_rating_voltage);
    assert(fs[2] == decimal_text(v.ac_output_rating_voltage));
    lemma_decimal_text(v.ac_out_rating_frequency);
    assert(fs[3] == decimal_text(v.ac_out_rating_frequency));
    lemma_decimal_text(v.ac_out_rating_current);
    assert(fs[4] == decimal_text(v.ac_out_rating_current));
    lemma_i32_text(v.ac_out_rating_apparent_power);
    assert(fs[5] == i32_text(v.ac_out_rating_apparent_power));
    lemma_i32_text(v.ac_out_rating_active_power);
    assert(fs[6] == i32_text(v.ac_out_rating_active_power));
    lemma_decimal_text(v.battery_rating_voltage);
    assert(fs[7] == decimal_text(v.battery_rating_voltage));
    lemma_decimal_text(v.battery_recharge_voltage);
    assert(fs[8] == decimal_text(v.battery_recharge_voltage));
    lemma_decimal_text(v.battery_under_voltage);
    assert(fs[9] == decimal_text(v.battery_under_voltage));
    lemma_decimal_text(v.battery_bulk_voltage);
    assert(fs[10] == decimal_text(v.battery_bulk_voltage));
    lemma_decimal_text(v.battery_float_voltage);
    assert(fs[11] == decimal_text(v.battery_float_voltage));
    lemma_battery_type_code(v.battery_type);
    assert(fs[12] == battery_type_code(v.battery_type));
    lemma_i32_text(v.max_ac_charging_current);
    assert(fs[13] == i32_text(v.max_ac_charging_current));
    lemma_i32_text(v.max_charging_current);
    assert(fs[14] == i32_text(v.max_charging_current));
    lemma_input_voltage_range_code(v.input_voltage_range);
    assert(fs[15] == input_voltage_range_code(v.input_voltage_range));
    lemma_output_source_priority_code(v.output_source_priority);
    assert(fs[16] == output_source_priority_code(v.output_source_priority));
    lemma_charge_source_priority_code(v.charge_source_priority);
    assert(fs[17] == charge_source_priority_code(v.charge_source_priority));
    assert(fs[18] == seq![MINUS]);
    lemma_machine_type_code(v.machine_type);
    assert(fs[19] == machine_type_code(v.machine_type));
    lemma_topology_code(v.topology);
    assert(fs[20] == topology_code(v.topology));
    lemma_output_mode_code(v.output_mode);
    assert(fs[21] == output_mode_code(v.output_mode));
    lemma_decimal_text(v.battery_redischarge_voltage);
    assert(fs[22] == decimal_text(v.battery_redischarge_voltage));
    assert(is_ascii(fs[18]));
}

/// The fields written for `v` hold no space and no carriage return.
#[verifier::rlimit(100)]
proof fn lemma_rating_texts_clean(v: QPIRIResponse)
    ensures
        forall|i: int|
            0 <= i < rating_texts(v).len() ==> !(#[trigger] rating_texts(v)[i]).contains(SPACE)
                && !rating_texts(v)[i].contains(0x0Du8),
{
    let fs = rating_texts(v);
    lemma_rating_field_texts(v);
    assert forall|i: int| 0 <= i < fs.len() implies !(#[trigger] fs[i]).contains(SPACE)
        && !fs[i].contains(0x0Du8) by {
        if i == 0 {} else if i == 1 {} else if i == 2 {} else if i == 3 {} else if i == 4 {} else if i == 5 {} else if i == 6 {} else if i == 7 {} else if i == 8 {} else if i == 9 {} else if i == 10 {} else if i == 11 {} else if i == 12 {} else if i == 13 {} else if i == 14 {} else if i == 15 {} else if i == 16 {} else if i == 17 {} else if i == 18 {} else if i == 19 {} else if i == 20 {} else if i == 21 {} else if i == 22 {}
    }
}

/// Each field written for `v` holds the kind that the check plan asks of it.
#[verifier::rlimit(100)]
proof fn lemma_rating_texts_checked(v: QPIRIResponse)
    ensures
        forall|j: int|
            0 <= j < rating_plan().len() ==> (#[trigger] field_error(
                rating_plan()[j].1,
                rating_texts(v)[rating_plan()[j].0 as int],
            )) is None,
        forall|j: int| 0 <= j < rating_plan().len() ==> (#[trigger] rating_plan()[j]).0 < 23,
{
    let fs = rating_texts(v);
    lemma_rating_field_texts(v);
    let plan = rating_plan();
    assert forall|j: int| 0 <= j < plan.len() implies (#[trigger] plan[j]).0 < 23 by {
        if j == 0 {} else if j == 1 {} else if j == 2 {} else if j == 3 {} else if j == 4 {} else if j == 5 {} else if j == 6 {} else if j == 7 {} else if j == 8 {} else if j == 9 {} else if j == 10 {} else if j == 11 {} else if j == 12 {} else if j == 13 {} else if j == 14 {} else if j == 15 {} else if j == 16 {} else if j == 17 {} else if j == 18 {} else if j == 19 {} else if j == 20 {} else if j == 21 {} else if j == 22 {} else if j == 23 {} else if j == 24 {} else if j == 25 {} else if j == 26 {} else if j == 27 {} else if j == 28 {}
    }
    assert forall|j: int| 0 <= j < plan.len() implies (#[trigger] field_error(
        plan[j].1,
        fs[plan[j].0 as int],
    )) is None by {
        if j == 0 {} else if j == 1 {} else if j == 2 {} else if j == 3 {} else if j == 4 {} else if j == 5 {} else if j == 6 {} else if j == 7 {} else if j == 8 {} else if j == 9 {} else if j == 10 {} else if j == 11 {} else if j == 12 {} else if j == 13 {} else if j == 14 {} else if j == 15 {} else if j == 16 {} else if j == 17 {} else if j == 18 {} else if j == 19 {} else if j == 20 {} else if j == 21 {} else if j == 22 {} else if j == 23 {} else if j == 24 {} else if j == 25 {} else if j == 26 {} else if j == 27 {} else if j == 28 {}
    }
}

/// The fields written for `v` read back as `v`.
#[verifier::rlimit(100)]
proof fn lemma_rating_texts_read_back(v: QPIRIResponse)
    ensures
        rating_of(rating_texts(v)) == v,
{
    lemma_rating_field_texts(v);
}

impl ResponseWire for QPIRIResponse {
    open spec fn legal(&self) -> bool {
        true
    }

    /// The fields joined by single spaces; the unread field 18 is `-`.
    open spec fn wire(&self) -> Seq<u8> {
        join_fields(rating_texts(*self))
    }

    proof fn lemma_wire_round_trip(v: Self) {
        let fs = rating_texts(v);
        lemma_rating_texts_clean(v);
        lemma_rating_texts_checked(v);
        lemma_rating_texts_read_back(v);
        lemma_join_fields(fs);
        lemma_join_avoids(fs, 0x0Du8);
        lemma_all_fields_ok(fs, rating_plan());
    }
}

/// A device may send further fields after the ones that are read: a line
/// made of the fields written for `v`, then any fields free of spaces,
/// decodes to `v`.
pub proof fn lemma_rating_with_trailing_fields(v: QPIRIResponse, extra: Seq<Seq<u8>>)
    requires
        forall|i: int| 0 <= i < extra.len() ==> !(#[trigger] extra[i]).contains(SPACE),
    ensures
        QPIRIResponse::parse(join_fields(rating_texts(v) + extra)) == Ok::<QPIRIResponse, Error>(v),
{
    let fs = rating_texts(v);
    let all = fs + extra;
    lemma_rating_texts_clean(v);
    lemma_rating_texts_checked(v);
    lemma_rating_texts_read_back(v);
    assert forall|i: int| 0 <= i < all.len() implies !(#[trigger] all[i]).contains(SPACE) by {
        if i < fs.len() {
            assert(all[i] == fs[i]);
        } else {
            assert(all[i] == extra[i - fs.len()]);
        }
    }
    lemma_join_fields(all);
    let plan = rating_plan();
    assert forall|j: int|
        0 <= j < plan.len() implies (#[trigger] field_error(plan[j].1, all[plan[j].0 as int])) is None by {
        assert(plan[j].0 < 23);
        assert(all[plan[j].0 as int] == fs[plan[j].0 as int]);
    }
    lemma_all_fields_ok(all, plan);
    assert(all.subrange(0, 23) =~= fs);
    assert(rating_of(all) == rating_of(fs));
}

} // verus!
