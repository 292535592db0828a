//! Validation of the space-separated fields of a status or rating payload.
use vstd::prelude::*;
use crate::commands::qpigs::{check_device_status, device_status_error};
use crate::commands::qpiri::{
    battery_type_from, battery_type_of, charge_source_priority_from, charge_source_priority_of,
    input_voltage_range_from, input_voltage_range_of, machine_type_from, machine_type_of,
    output_mode_from, output_mode_of, output_source_priority_from, output_source_priority_of,
    topology_from, topology_of,
};
use crate::error::Error;
use crate::text::{
    check_text, decimal_of, i32_of, parse_decimal, parse_i32, parse_usize, text_ok, usize_of, views,
};

verus! {

/// What a field must hold.
#[derive(Debug, Clone, Copy, PartialEq, Eq, Structural)]
pub enum FieldKind {
    /// Well-encoded text, whatever it says.
    Text,
    Fixed,
    Unsigned,
    Signed,
    Status,
    BatteryType,
    InputVoltageRange,
    OutputSourcePriority,
    ChargeSourcePriority,
    MachineType,
    Topology,
    OutputMode,
}

/// The error that field `f` gives as a field of kind `kind`, if any. Text
/// that is not well encoded fails before its content is read.
pub open spec fn field_error(kind: FieldKind, f: Seq<u8>) -> Option<Error> {
    match kind {
        FieldKind::Text => if text_ok(f) { None } else { Some(Error::Utf8) },
        FieldKind::Fixed => if !text_ok(f) {
            Some(Error::Utf8)
        } else if decimal_of(f) is Some {
            None
        } else {
            Some(Error::ParseFloat)
        },
        FieldKind::Unsigned => if !text_ok(f) {
            Some(Error::Utf8)
        } else if usize_of(f) is Some {
            None
        } else {
            Some(Error::ParseInt)
        },
        FieldKind::Signed => if !text_ok(f) {
            Some(Error::Utf8)
        } else if i32_of(f) is Some {
            None
        } else {
            Some(Error::ParseInt)
        },
        FieldKind::Status => device_status_error(f),
        FieldKind::BatteryType => if !text_ok(f) {
            Some(Error::Utf8)
        } else if battery_type_of(f) is Some {
            None
        } else {
            Some(Error::InvalidDeviceBatteryType)
        },
        FieldKind::InputVoltageRange => if !text_ok(f) {
            Some(Error::Utf8)
        } else if input_voltage_range_of(f) is Some {
            None
        } else {
            Some(Error::InvalidDeviceInputVoltageRange)
        },
        FieldKind::OutputSourcePriority => if !text_ok(f) {
            Some(Error::Utf8)
        } else if output_source_priority_of(f) is Some {
            None
        } else {
            Some(Error::InvalidDeviceOutputSourcePriority)
        },
        FieldKind::ChargeSourcePriority => if !text_ok(f) {
            Some(Error::Utf8)
        } else if charge_source_priority_of(f) is Some {
            None
        } else {
            Some(Error::InvalidDeviceChargeSourcePriority)
        },
        FieldKind::MachineType => if !text_ok(f) {
            Some(Error::Utf8)
        } else if machine_type_of(f) is Some {
            None
        } else {
            Some(Error::InvalidDeviceMachineType)
        },
        FieldKind::Topology => if !text_ok(f) {
            Some(Error::Utf8)
        } else if topology_of(f) is Some {
            None
        } else {
            Some(Error::InvalidDeviceTopology)
        },
        FieldKind::OutputMode => if !text_ok(f) {
            Some(Error::Utf8)
        } else if output_mode_of(f) is Some {
            None
        } else {
            Some(Error::InvalidDeviceOutputMode)
        },
    }
}

/// The error that field `f` gives as a field of kind `kind`, if any.
pub fn check_field(kind: FieldKind, f: &[u8]) -> (r: Option<Error>)
    ensures
        r == field_error(kind, f@),
{
    match kind {
        FieldKind::Text => if check_text(f) { None } else { Some(Error::Utf8) },
        FieldKind::Fixed => if !check_text(f) {
            Some(Error::Utf8)
        } else if parse_decimal(f).is_some() {
            None
        } else {
            Some(Error::ParseFloat)
        },
        FieldKind::Unsigned => if !check_text(f) {
            Some(Error::Utf8)
        } else if parse_usize(f).is_some() {
            None
        } else {
            Some(Error::ParseInt)
        },
        FieldKind::Signed => if !check_text(f) {
            Some(Error::Utf8)
        } else if parse_i32(f).is_some() {
            None
        } else {
            Some(Error::ParseInt)
        },
        FieldKind::Status => check_device_status(f),
        FieldKind::BatteryType => if !check_text(f) {
            Some(Error::Utf8)
        } else if battery_type_from(f).is_some() {
            None
        } else {
            Some(Error::InvalidDeviceBatteryType)
        },
        FieldKind::InputVoltageRange => if !check_text(f) {
            Some(Error::Utf8)
        } else if input_voltage_range_from(f).is_some() {
            None
        } else {
            Some(Error::InvalidDeviceInputVoltageRange)
        },
        FieldKind::OutputSourcePriority => if !check_text(f) {
            Some(Error::Utf8)
        } else if output_source_priority_from(f).is_some() {
            None
        } else {
            Some(Error::InvalidDeviceOutputSourcePriority)
        },
        FieldKind::ChargeSourcePriority => if !check_text(f) {
            Some(Error::Utf8)
        } else if charge_source_priority_from(f).is_some() {
            None
        } else {
            Some(Error::InvalidDeviceChargeSourcePriority)
        },
        FieldKind::MachineType => if !check_text(f) {
            Some(Error::Utf8)
        } else if machine_type_from(f).is_some() {
            None
        } else {
            Some(Error::InvalidDeviceMachineType)
        },
        FieldKind::Topology => if !check_text(f) {
            Some(Error::Utf8)
        } else if topology_from(f).is_some() {
            None
        } else {
            Some(Error::InvalidDeviceTopology)
        },
        FieldKind::OutputMode => if !check_text(f) {
            Some(Error::Utf8)
        } else if output_mode_from(f).is_some() {
            None
        } else {
            Some(Error::InvalidDeviceOutputMode)
        },
    }
}

/// Checking the fields `fs` in the order of `plan` (field index, kind): the
/// error of the first field that fails, if any.
pub open spec fn first_failure(fs: Seq<Seq<u8>>, plan: Seq<(usize, FieldKind)>) -> Option<Error>
    decreases plan.len(),
{
    if plan.len() == 0 {
        None
    } else {
        match field_error(plan[0].1, fs[plan[0].0 as int]) {
            Some(e) => Some(e),
            None => first_failure(fs, plan.drop_first()),
        }
    }
}

/// Where no field fails, each field of the plan holds its kind.
pub proof fn lemma_no_failure(fs: Seq<Seq<u8>>, plan: Seq<(usize, FieldKind)>)
    requires
        first_failure(fs, plan) is None,
    ensures
        forall|j: int|
            0 <= j < plan.len() ==> (#[trigger] field_error(plan[j].1, fs[plan[j].0 as int])) is None,
    decreases plan.len(),
{
    if plan.len() > 0 {
        lemma_no_failure(fs, plan.drop_first());
        assert forall|j: int|
            0 <= j < plan.len() implies (#[trigger] field_error(plan[j].1, fs[plan[j].0 as int])) is None by {
            if j > 0 {
                assert(plan[j] == plan.drop_first()[j - 1]);
            }
        }
    }
}

/// Where each field of the plan holds its kind, no field fails.
pub proof fn lemma_all_fields_ok(fs: Seq<Seq<u8>>, plan: Seq<(usize, FieldKind)>)
    requires
        forall|j: int|
            0 <= j < plan.len() ==> (#[trigger] field_error(plan[j].1, fs[plan[j].0 as int])) is None,
    ensures
        first_failure(fs, plan) is None,
    decreases plan.len(),
{
    if plan.len() > 0 {
        let rest = plan.drop_first();
        assert forall|j: int|
            0 <= j < rest.len() implies (#[trigger] field_error(rest[j].1, fs[rest[j].0 as int])) is None by {
            assert(rest[j] == plan[j + 1]);
        }
        assert(field_error(plan[0].1, fs[plan[0].0 as int]) is None);
        lemma_all_fields_ok(fs, rest);
    }
}

/// Checks the fields `fs` in the order of `plan`.
pub fn check_fields(fs: &Vec<Vec<u8>>, plan: &Vec<(usize, FieldKind)>) -> (r: Option<Error>)
    requires
        forall|j: int| 0 <= j < plan@.len() ==> (#[trigger] plan@[j]).0 < fs@.len(),
    ensures
        r == first_failure(views(fs@), plan@),
{
    let mut j: usize = 0;
    assert(plan@.subrange(0, plan@.len() as int) == plan@);
    while j < plan.len()
        invariant
            j <= plan@.len(),
            forall|t: int| 0 <= t < plan@.len() ==> (#[trigger] plan@[t]).0 < fs@.len(),
            first_failure(views(fs@), plan@) == first_failure(
                views(fs@),
                plan@.subrange(j as int, plan@.len() as int),
            ),
        decreases plan@.len() - j,
    {
        let (idx, kind) = plan[j];
        let ghost rest = plan@.subrange(j as int, plan@.len() as int);
        assert(rest[0] == plan@[j as int]);
        assert(rest.drop_first() == plan@.subrange(j + 1, plan@.len() as int));
        assert(views(fs@)[idx as int] == fs@[idx as int]@);
        let e = check_field(kind, fs[idx].as_slice());
        if e.is_some() {
            return e;
        }
        j = j + 1;
    }
    None
}

} // verus!
