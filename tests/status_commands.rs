use bytes::BytesMut;
use crc_any::CRCu16;
use inverter_protocol::codec::Codec;
use inverter_protocol::command::{Command, Request, Response};
use inverter_protocol::commands::qpigs::DeviceChargingStatus::{
    ChargingFromAC, ChargingFromSCC, ChargingFromSCCAndAC, NotCharging,
};
use inverter_protocol::commands::qpigs::{DeviceStatus, QPIGSResponse, QPIGS};
use inverter_protocol::commands::qpiri::BatteryType::{Flooded, User, AGM};
use inverter_protocol::commands::qpiri::ChargeSourcePriority::{
    GridFirst as ChargeSourceGridFirst, OnlySolar, SolarAndGrid,
    SolarFirst as ChargeSourceSolarFirst,
};
use inverter_protocol::commands::qpiri::InputVoltageRange::{Appliance, UPS};
use inverter_protocol::commands::qpiri::MachineType::{GridTie, Hybrid, OffGrid};
use inverter_protocol::commands::qpiri::OutputMode::{
    ParallelOutput, Phase1Of3Output, Phase2Of3Output, Phase3Of3Output, SingleMachineOutput,
};
use inverter_protocol::commands::qpiri::OutputSourcePriority::{
    GridFirst as OutputSourceGridFirst, SBUFirst, SolarFirst as OutputSourceSolarFirst,
};
use inverter_protocol::commands::qpiri::Topology::{Transformer, Transformerless};
use inverter_protocol::commands::qpiri::{
    BatteryType, ChargeSourcePriority, InputVoltageRange, MachineType, OutputMode,
    OutputSourcePriority, QPIRIResponse, Topology, QPIRI,
};
use inverter_protocol::commands::qpiws::{QPIWSResponse, QPIWS};
use inverter_protocol::error::Error;
use inverter_protocol::text::Decimal;
use rand::{random, thread_rng, Rng};

type Result<T> = std::result::Result<T, Error>;

/// The `f32` nearest to a fixed-point value, as `f32::from_str` gives it.
fn as_f32(d: Decimal) -> f32 {
    d.mantissa as f32 / 10f32.powi(d.scale as i32)
}

#[derive(Debug, PartialEq)]
struct QPIGSFloats {
    grid_voltage: f32,
    grid_frequency: f32,
    ac_out_voltage: f32,
    ac_out_frequency: f32,
    ac_out_apparent_power: usize,
    ac_out_active_power: usize,
    out_load_percent: usize,
    bus_voltage: usize,
    battery_voltage: f32,
    battery_charge_current: usize,
    battery_capacity: usize,
    inverter_heat_sink_temp: usize,
    pv_input_current: usize,
    pv_input_voltage: f32,
    battery_scc_voltage: f32,
    battery_discharge_current: usize,
    device_status: DeviceStatus,
}

fn status_floats(r: QPIGSResponse) -> QPIGSFloats {
    QPIGSFloats {
        grid_voltage: as_f32(r.grid_voltage),
        grid_frequency: as_f32(r.grid_frequency),
        ac_out_voltage: as_f32(r.ac_out_voltage),
        ac_out_frequency: as_f32(r.ac_out_frequency),
        ac_out_apparent_power: r.ac_out_apparent_power,
        ac_out_active_power: r.ac_out_active_power,
        out_load_percent: r.out_load_percent,
        bus_voltage: r.bus_voltage,
        battery_voltage: as_f32(r.battery_voltage),
        battery_charge_current: r.battery_charge_current,
        battery_capacity: r.battery_capacity,
        inverter_heat_sink_temp: r.inverter_heat_sink_temp,
        pv_input_current: r.pv_input_current,
        pv_input_voltage: as_f32(r.pv_input_voltage),
        battery_scc_voltage: as_f32(r.battery_scc_voltage),
        battery_discharge_current: r.battery_discharge_current,
        device_status: r.device_status,
    }
}

#[derive(Debug, PartialEq)]
struct QPIRIFloats {
    grid_rating_voltage: f32,
    grid_rating_current: f32,
    ac_output_rating_voltage: f32,
    ac_out_rating_frequency: f32,
    ac_out_rating_current: f32,
    ac_out_rating_apparent_power: i32,
    ac_out_rating_active_power: i32,
    battery_rating_voltage: f32,
    battery_recharge_voltage: f32,
    battery_under_voltage: f32,
    battery_bulk_voltage: f32,
    battery_float_voltage: f32,
    battery_type: BatteryType,
    max_ac_charging_current: i32,
    max_charging_current: i32,
    input_voltage_range: InputVoltageRange,
    output_source_priority: OutputSourcePriority,
    charge_source_priority: ChargeSourcePriority,
    machine_type: MachineType,
    topology: Topology,
    output_mode: OutputMode,
    battery_redischarge_voltage: f32,
}

fn rating_floats(r: QPIRIResponse) -> QPIRIFloats {
    QPIRIFloats {
        grid_rating_voltage: as_f32(r.grid_rating_voltage),
        grid_rating_current: as_f32(r.grid_rating_current),
        ac_output_rating_voltage: as_f32(r.ac_output_rating_voltage),
        ac_out_rating_frequency: as_f32(r.ac_out_rating_frequency),
        ac_out_rating_current: as_f32(r.ac_out_rating_current),
        ac_out_rating_apparent_power: r.ac_out_rating_apparent_power,
        ac_out_rating_active_power: r.ac_out_rating_active_power,
        battery_rating_voltage: as_f32(r.battery_rating_voltage),
        battery_recharge_voltage: as_f32(r.battery_recharge_voltage),
        battery_under_voltage: as_f32(r.battery_under_voltage),
        battery_bulk_voltage: as_f32(r.battery_bulk_voltage),
        battery_float_voltage: as_f32(r.battery_float_voltage),
        battery_type: r.battery_type,
        max_ac_charging_current: r.max_ac_charging_current,
        max_charging_current: r.max_charging_current,
        input_voltage_range: r.input_voltage_range,
        output_source_priority: r.output_source_priority,
        charge_source_priority: r.charge_source_priority,
        machine_type: r.machine_type,
        topology: r.topology,
        output_mode: r.output_mode,
        battery_redischarge_voltage: as_f32(r.battery_redischarge_voltage),
    }
}

#[test]
fn test_qpigs_payload_encode() -> Result<()> {
    let req: <QPIGS as Command>::Request = ();
    assert_eq!(req.encode()?, None);
    Ok(())
}

#[test]
fn test_qpigs_payload_decode_custom() -> Result<()> {
    let res = "001.0 00.0 229.0 50.0 0091 0091 003 420 27.16 000 100 0336 0000 074.9 27.12 00005 10110110 17 04 00010 100";

    let mut buf = BytesMut::from(res);
    let item = <QPIGS as Command>::Response::decode(&mut buf)?;
    // println!("Test result: {:#?}", item);
    assert_eq!(
        status_floats(item),
        QPIGSFloats {
            grid_voltage: 1.0f32,
            grid_frequency: 0.0f32,
            ac_out_voltage: 229.0f32,
            ac_out_frequency: 50.0f32,
            ac_out_apparent_power: 91,
            ac_out_active_power: 91,
            out_load_percent: 3,
            bus_voltage: 420,
            battery_voltage: 27.16f32,
            battery_charge_current: 0,
            battery_capacity: 100,
            inverter_heat_sink_temp: 336,
            pv_input_current: 0,
            pv_input_voltage: 74.9f32,
            battery_scc_voltage: 27.12f32,
            battery_discharge_current: 5,
            device_status: DeviceStatus {
                active_load: true,
                charge_status: ChargingFromSCC,
            },
        }
    );

    Ok(())
}

#[test]
fn test_qpigs_command_encode() -> Result<()> {
    let mut codec = Codec::<QPIGS>::new();

    let mut buf = BytesMut::new();
    codec.encode((), &mut buf)?;

    assert_eq!(&buf[..], b"QPIGS\xb7\xa9\r");

    Ok(())
}

#[test]
fn test_qpigs_command_decode() -> Result<()> {
    let mut codec = Codec::<QPIGS>::new();

    let device_status_options = ["000", "110", "101", "111"];

    for _ in 0..1000 {
        let mut rng = thread_rng();
        let grid_voltage: f32 = (rng.gen_range(0.0..500.0) * 10.0f32).floor() / 10.0;
        let grid_frequency: f32 = (rng.gen_range(0.0..60.0) * 10.0f32).floor() / 10.0;
        let ac_out_voltage: f32 = (rng.gen_range(0.0..500.0) * 10.0f32).floor() / 10.0;
        let ac_out_frequency: f32 = (rng.gen_range(0.0..60.0) * 10.0f32).floor() / 10.0;
        let ac_out_apparent_power: usize = rng.gen_range(0..2500);
        let ac_out_active_power: usize = rng.gen_range(0..2500);
        let out_load_percent: usize = rng.gen_range(0..100);
        let bus_voltage: usize = rng.gen_range(0..2500);
        let battery_voltage: f32 = (rng.gen_range(0.0..100.0) * 10.0f32).floor() / 10.0;
        let battery_charge_current: usize = rng.gen_range(0..2500);
        let battery_capacity: usize = rng.gen_range(0..100);
        let inverter_heat_sink_temp: usize = rng.gen_range(0..100);
        let pv_input_current: usize = rng.gen_range(0..100);
        let pv_input_voltage: f32 = (rng.gen_range(0.0..100.0) * 10.0f32).floor() / 10.0;
        let battery_scc_voltage: f32 = (rng.gen_range(0.0..100.0) * 10.0f32).floor() / 10.0;
        let battery_discharge_current: usize = rng.gen_range(0..100);

        let active_load: bool = random();
        let charge_status =
            device_status_options[rng.gen_range(0..device_status_options.len())];

        let mut res = format!(
            // 001.0   00.0    229.0   50.0   0091   0091  003  420    27.16   000   100   0336 0000  074.9   27.12   00005 10110110 17 04 00010 100
            "({:03.1} {:02.1} {:03.1} {:02.1} {:04} {:04} {:03} {:03} {:02.2} {:03} {:03} {:04} {:04} {:03.1} {:02.2} {:05} 000{:b}0{} 17 04 00010 100",
            grid_voltage,
            grid_frequency,
            ac_out_voltage,
            ac_out_frequency,
            ac_out_apparent_power,
            ac_out_active_power,
            out_load_percent,
            bus_voltage,
            battery_voltage,
            battery_charge_current,
            battery_capacity,
            inverter_heat_sink_temp,
            pv_input_current,
            pv_input_voltage,
            battery_scc_voltage,
            battery_discharge_current,
            active_load as i32,
            charge_status
        )
        .into_bytes();
        let mut crc_sum = CRCu16::crc16xmodem();
        crc_sum.digest(res.as_slice());
        res.extend_from_slice(crc_sum.get_crc().to_be_bytes().as_ref());
        res.push(b'\r');

        let mut buf = BytesMut::from(res.as_slice());
        let item = codec.decode(&mut buf)?;

        assert_eq!(buf.len(), 0);
        assert_eq!(
            item.map(status_floats),
            Some(QPIGSFloats {
                grid_voltage,
                grid_frequency,
                ac_out_voltage,
                ac_out_frequency,
                ac_out_apparent_power,
                ac_out_active_power,
                out_load_percent,
                bus_voltage,
                battery_voltage,
                battery_charge_current,
                battery_capacity,
                inverter_heat_sink_temp,
                pv_input_current,
                pv_input_voltage,
                battery_scc_voltage,
                battery_discharge_current,
                device_status: DeviceStatus {
                    active_load: active_load,
                    charge_status: match charge_status {
                        "000" => NotCharging,
                        "110" => ChargingFromSCC,
                        "101" => ChargingFromAC,
                        "111" => ChargingFromSCCAndAC,
                        _ => unreachable!(),
                    },
                },
            })
        );
    }

    Ok(())
}

#[test]
fn test_qpiri_payload_encode() -> Result<()> {
    let req: <QPIRI as Command>::Request = ();
    assert_eq!(req.encode()?, None);
    Ok(())
}

#[test]
fn test_qpiri_payload_decode_custom() -> Result<()> {
    let res = "230.0 13.0 230.0 50.0 13.0 3000 2400 24.0 23.0 21.0 28.2 27.0 0 30 60 0 0 0 - 01 1 0 27.0 0 0";

    let mut buf = BytesMut::from(res);
    let item = <QPIRI as Command>::Response::decode(&mut buf)?;
    // println!("Test result: {:#?}", item);
    assert_eq!(
        rating_floats(item),
        QPIRIFloats {
            grid_rating_voltage: 230.0,
            grid_rating_current: 13.0,
            ac_output_rating_voltage: 230.0,
            ac_out_rating_frequency: 50.0,
            ac_out_rating_current: 13.0,
            ac_out_rating_apparent_power: 3000,
            ac_out_rating_active_power: 2400,
            battery_rating_voltage: 24.0,
            battery_recharge_voltage: 23.0,
            battery_under_voltage: 21.0,
            battery_bulk_voltage: 28.2,
            battery_float_voltage: 27.0,
            battery_type: BatteryType::AGM,
            max_ac_charging_current: 30,
            max_charging_current: 60,
            input_voltage_range: InputVoltageRange::Appliance,
            output_source_priority: OutputSourcePriority::GridFirst,
            charge_source_priority: ChargeSourcePriority::GridFirst,
            machine_type: MachineType::OffGrid,
            topology: Topology::Transformer,
            output_mode: OutputMode::SingleMachineOutput,
            battery_redischarge_voltage: 27.0
        }
    );

    Ok(())
}

#[test]
fn test_qpiri_command_encode() -> Result<()> {
    let mut codec = Codec::<QPIRI>::new();

    let mut buf = BytesMut::new();
    codec.encode((), &mut buf)?;

    assert_eq!(&buf[..], b"QPIRI\xf8\x54\r");

    Ok(())
}

#[test]
fn test_qpiri_command_decode() -> Result<()> {
    let mut codec = Codec::<QPIRI>::new();

    for _ in 0..1000 {
        let mut rng = thread_rng();

        let grid_rating_voltage: f32 = (rng.gen_range(0.0..500.0) * 10.0f32).floor() / 10.0;
        let grid_rating_current: f32 = (rng.gen_range(0.0..500.0) * 10.0f32).floor() / 10.0;
        let ac_output_rating_voltage: f32 =
            (rng.gen_range(0.0..500.0) * 10.0f32).floor() / 10.0;
        let ac_out_rating_frequency: f32 = (rng.gen_range(0.0..60.0) * 10.0f32).floor() / 10.0;
        let ac_out_rating_current: f32 = (rng.gen_range(0.0..500.0) * 10.0f32).floor() / 10.0;
        let ac_out_rating_apparent_power: i32 = rng.gen_range(0..5000);
        let ac_out_rating_active_power: i32 = rng.gen_range(0..2500);
        let battery_rating_voltage: f32 = (rng.gen_range(0.0..60.0) * 10.0f32).floor() / 10.0;
        let battery_recharge_voltage: f32 = (rng.gen_range(0.0..60.0) * 10.0f32).floor() / 10.0;
        let battery_under_voltage: f32 = (rng.gen_range(0.0..60.0) * 10.0f32).floor() / 10.0;
        let battery_bulk_voltage: f32 = (rng.gen_range(0.0..60.0) * 10.0f32).floor() / 10.0;
        let battery_float_voltage: f32 = (rng.gen_range(0.0..60.0) * 10.0f32).floor() / 10.0;
        let max_ac_charging_current: i32 = rng.gen_range(0..500);
        let max_charging_current: i32 = rng.gen_range(0..500);
        let battery_redischarge_voltage: f32 =
            (rng.gen_range(0.0..60.0) * 10.0f32).floor() / 10.0;

        let battery_type = rng.gen_range(0..2);
        let input_voltage_range = rng.gen_range(0..1);
        let output_source_priority = rng.gen_range(0..2);
        let charge_source_priority = rng.gen_range(0..3);
        let machine_type = rng.gen_range(0..2);
        let output_mode = rng.gen_range(0..4);
        let topology = rng.gen_range(0..1);

        let mut res = format!(
            // 230.0  13.0    230.0   50.0    13.0    3000  2400  24.0    23.0    21.0    28.2    27.0    0     30    60    0      0    0     -  01     1     0     27.0   0 0
            "({:03.1} {:02.1} {:03.1} {:02.1} {:02.1} {:04} {:04} {:02.1} {:02.1} {:02.1} {:02.1} {:02.1} {:01} {:02} {:02} {:01} {:01} {:01} - {:02} {:01} {:01} {:02.1} 0 0",
            grid_rating_voltage,
            grid_rating_current,
            ac_output_rating_voltage,
            ac_out_rating_frequency,
            ac_out_rating_current,
            ac_out_rating_apparent_power,
            ac_out_rating_active_power,
            battery_rating_voltage,
            battery_recharge_voltage,
            battery_under_voltage,
            battery_bulk_voltage,
            battery_float_voltage,
            battery_type,
            max_ac_charging_current,
            max_charging_current,
            input_voltage_range,
            output_source_priority,
            charge_source_priority,
           match machine_type {
                    0 => "00",
                    1 => "01",
                    2 => "10",
                    _ => unreachable!(),
                },
            topology,
            output_mode,
            battery_redischarge_voltage
        )
        .into_bytes();
        let mut crc_sum = CRCu16::crc16xmodem();
        crc_sum.digest(res.as_slice());
        res.extend_from_slice(crc_sum.get_crc().to_be_bytes().as_ref());
        res.push(b'\r');

        let mut buf = BytesMut::from(res.as_slice());
        let item = codec.decode(&mut buf)?;

        assert_eq!(buf.len(), 0);
        assert_eq!(
            item.map(rating_floats),
            Some(QPIRIFloats {
                grid_rating_voltage,
                grid_rating_current,
                ac_output_rating_voltage,
                ac_out_rating_frequency,
                ac_out_rating_current,
                ac_out_rating_apparent_power,
                ac_out_rating_active_power,
                battery_rating_voltage,
                battery_recharge_voltage,
                battery_under_voltage,
                battery_bulk_voltage,
                battery_float_voltage,
                battery_type: match battery_type {
                    0 => AGM,
                    1 => Flooded,
                    2 => User,
                    _ => unreachable!(),
                },
                max_ac_charging_current,
                max_charging_current,
                input_voltage_range: match input_voltage_range {
                    0 => Appliance,
                    1 => UPS,
                    _ => unreachable!(),
                },
                output_source_priority: match output_source_priority {
                    0 => OutputSourceGridFirst,
                    1 => OutputSourceSolarFirst,
                    2 => SBUFirst,
                    _ => unreachable!(),
                },
                charge_source_priority: match charge_source_priority {
                    0 => ChargeSourceGridFirst,
                    1 => ChargeSourceSolarFirst,
                    2 => SolarAndGrid,
                    3 => OnlySolar,
                    _ => unreachable!(),
                },
                machine_type: match machine_type {
                    0 => GridTie,
                    1 => OffGrid,
                    2 => Hybrid,
                    _ => unreachable!(),
                },
                topology: match topology {
                    0 => Transformerless,
                    1 => Transformer,
                    _ => unreachable!(),
                },
                output_mode: match output_mode {
                    0 => SingleMachineOutput,
                    1 => ParallelOutput,
                    2 => Phase1Of3Output,
                    3 => Phase2Of3Output,
                    4 => Phase3Of3Output,
                    _ => unreachable!(),
                },
                battery_redischarge_voltage
            })
        );
    }

    Ok(())
}

#[test]
fn test_qpiws_payload_encode() -> Result<()> {
    let req: <QPIWS as Command>::Request = ();

    assert_eq!(req.encode()?, None);

    Ok(())
}

#[test]
fn test_qpiws_payload_decode() -> Result<()> {
    for _ in 0..1000 {
        let mut rng = thread_rng();

        let inverter_fault = rng.gen_bool(0.5f64);
        let bus_over = rng.gen_bool(0.5f64);
        let bus_under = rng.gen_bool(0.5f64);
        let bus_soft_fail = rng.gen_bool(0.5f64);
        let line_fail = rng.gen_bool(0.5f64);
        let opv_short = rng.gen_bool(0.5f64);
        let inverter_voltage_too_low = rng.gen_bool(0.5f64);
        let inverter_voltage_too_high = rng.gen_bool(0.5f64);
        let over_temperature = rng.gen_bool(0.5f64);
        let fan_locked = rng.gen_bool(0.5f64);
        let battery_voltage_high = rng.gen_bool(0.5f64);
        let battery_low_alarm = rng.gen_bool(0.5f64);
        let battery_under_shutdown = rng.gen_bool(0.5f64);
        let over_load = rng.gen_bool(0.5f64);
        let eeprom_fault = rng.gen_bool(0.5f64);
        let inverter_over_current = rng.gen_bool(0.5f64);
        let inverter_soft_fail = rng.gen_bool(0.5f64);
        let self_test_fail = rng.gen_bool(0.5f64);
        let op_dc_voltage_over = rng.gen_bool(0.5f64);
        let bat_open = rng.gen_bool(0.5f64);
        let current_sensor_fail = rng.gen_bool(0.5f64);
        let battery_short = rng.gen_bool(0.5f64);
        let power_limit = rng.gen_bool(0.5f64);
        let pv_voltage_high = rng.gen_bool(0.5f64);
        let mppt_overload_fault = rng.gen_bool(0.5f64);
        let mppt_overload_warning = rng.gen_bool(0.5f64);
        let battery_too_low_to_charge = rng.gen_bool(0.5f64);

        let mut buf = BytesMut::from(
            format!(
                "0{}{}{}{}{}{}{}{}{}{}{}{}0{}0{}{}{}{}{}{}{}{}{}{}{}{}{}{}00",
                inverter_fault as i32,
                bus_over as i32,
                bus_under as i32,
                bus_soft_fail as i32,
                line_fail as i32,
                opv_short as i32,
                inverter_voltage_too_low as i32,
                inverter_voltage_too_high as i32,
                over_temperature as i32,
                fan_locked as i32,
                battery_voltage_high as i32,
                battery_low_alarm as i32,
                battery_under_shutdown as i32,
                over_load as i32,
                eeprom_fault as i32,
                inverter_over_current as i32,
                inverter_soft_fail as i32,
                self_test_fail as i32,
                op_dc_voltage_over as i32,
                bat_open as i32,
                current_sensor_fail as i32,
                battery_short as i32,
                power_limit as i32,
                pv_voltage_high as i32,
                mppt_overload_fault as i32,
                mppt_overload_warning as i32,
                battery_too_low_to_charge as i32,
            )
            .into_bytes()
            .as_slice(),
        );
        let item = <QPIWS as Command>::Response::decode(&mut buf)?;

        assert_eq!(
            item,
            QPIWSResponse {
                inverter_fault,
                bus_over,
                bus_under,
                bus_soft_fail,
                line_fail,
                opv_short,
                inverter_voltage_too_low,
                inverter_voltage_too_high,
                over_temperature,
                fan_locked,
                battery_voltage_high,
                battery_low_alarm,
                battery_under_shutdown,
                over_load,
                eeprom_fault,
                inverter_over_current,
                inverter_soft_fail,
                self_test_fail,
                op_dc_voltage_over,
                bat_open,
                current_sensor_fail,
                battery_short,
                power_limit,
                pv_voltage_high,
                mppt_overload_fault,
                mppt_overload_warning,
                battery_too_low_to_charge
            }
        );
    }

    Ok(())
}

#[test]
fn test_qpiws_command_encode() -> Result<()> {
    let mut codec = Codec::<QPIWS>::new();

    let mut buf = BytesMut::new();
    codec.encode((), &mut buf)?;

    assert_eq!(&buf[..], b"QPIWS\xb4\xda\r");

    Ok(())
}

#[test]
fn test_qpiws_command_decode() -> Result<()> {
    let mut codec = Codec::<QPIWS>::new();

    for _ in 0..1000 {
        let mut rng = thread_rng();

        let inverter_fault = rng.gen_bool(0.5f64);
        let bus_over = rng.gen_bool(0.5f64);
        let bus_under = rng.gen_bool(0.5f64);
        let bus_soft_fail = rng.gen_bool(0.5f64);
        let line_fail = rng.gen_bool(0.5f64);
        let opv_short = rng.gen_bool(0.5f64);
        let inverter_voltage_too_low = rng.gen_bool(0.5f64);
        let inverter_voltage_too_high = rng.gen_bool(0.5f64);
        let over_temperature = rng.gen_bool(0.5f64);
        let fan_locked = rng.gen_bool(0.5f64);
        let battery_voltage_high = rng.gen_bool(0.5f64);
        let battery_low_alarm = rng.gen_bool(0.5f64);
        let battery_under_shutdown = rng.gen_bool(0.5f64);
        let over_load = rng.gen_bool(0.5f64);
        let eeprom_fault = rng.gen_bool(0.5f64);
        let inverter_over_current = rng.gen_bool(0.5f64);
        let inverter_soft_fail = rng.gen_bool(0.5f64);
        let self_test_fail = rng.gen_bool(0.5f64);
        let op_dc_voltage_over = rng.gen_bool(0.5f64);
        let bat_open = rng.gen_bool(0.5f64);
        let current_sensor_fail = rng.gen_bool(0.5f64);
        let battery_short = rng.gen_bool(0.5f64);
        let power_limit = rng.gen_bool(0.5f64);
        let pv_voltage_high = rng.gen_bool(0.5f64);
        let mppt_overload_fault = rng.gen_bool(0.5f64);
        let mppt_overload_warning = rng.gen_bool(0.5f64);
        let battery_too_low_to_charge = rng.gen_bool(0.5f64);

        let mut res = format!(
            "(0{}{}{}{}{}{}{}{}{}{}{}{}0{}0{}{}{}{}{}{}{}{}{}{}{}{}{}{}00",
            inverter_fault as i32,
            bus_over as i32,
            bus_under as i32,
            bus_soft_fail as i32,
            line_fail as i32,
            opv_short as i32,
            inverter_voltage_too_low as i32,
            inverter_voltage_too_high as i32,
            over_temperature as i32,
            fan_locked as i32,
            battery_voltage_high as i32,
            battery_low_alarm as i32,
            battery_under_shutdown as i32,
            over_load as i32,
            eeprom_fault as i32,
            inverter_over_current as i32,
            inverter_soft_fail as i32,
            self_test_fail as i32,
            op_dc_voltage_over as i32,
            bat_open as i32,
            current_sensor_fail as i32,
            battery_short as i32,
            power_limit as i32,
            pv_voltage_high as i32,
            mppt_overload_fault as i32,
            mppt_overload_warning as i32,
            battery_too_low_to_charge as i32,
        )
        .into_bytes();
        let mut crc_sum = CRCu16::crc16xmodem();
        crc_sum.digest(res.as_slice());
        res.extend_from_slice(crc_sum.get_crc().to_be_bytes().as_ref());
        res.push(b'\r');

        let mut buf = BytesMut::from(res.as_slice());
        let item = codec.decode(&mut buf)?;

        assert_eq!(buf.len(), 0);
        assert_eq!(
            item,
            Some(QPIWSResponse {
                inverter_fault,
                bus_over,
                bus_under,
                bus_soft_fail,
                line_fail,
                opv_short,
                inverter_voltage_too_low,
                inverter_voltage_too_high,
                over_temperature,
                fan_locked,
                battery_voltage_high,
                battery_low_alarm,
                battery_under_shutdown,
                over_load,
                eeprom_fault,
                inverter_over_current,
                inverter_soft_fail,
                self_test_fail,
                op_dc_voltage_over,
                bat_open,
                current_sensor_fail,
                battery_short,
                power_limit,
                pv_voltage_high,
                mppt_overload_fault,
                mppt_overload_warning,
                battery_too_low_to_charge
            })
        );
    }

    Ok(())
}

const STATUS: &str = "001.0 00.0 229.0 50.0 0091 0091 003 420 27.16 000 100 0336 0000 074.9 27.12 00005 10110110 17 04 00010 100";

#[test]
fn status_scenario_charging_from_scc() {
    let mut buf = BytesMut::from(STATUS);
    let item = QPIGSResponse::decode(&mut buf).unwrap();
    assert_eq!(item.device_status.charge_status, ChargingFromSCC);
    assert!(item.device_status.active_load);
    assert_eq!(item.battery_voltage, Decimal { mantissa: 2716, scale: 2 });
    assert_eq!(item.bus_voltage, 420);
}

#[test]
fn status_errors_name_the_field_kind() {
    let mut buf = BytesMut::from(STATUS.replacen("229.0", "22x.0", 1).as_str());
    assert!(matches!(QPIGSResponse::decode(&mut buf), Err(Error::ParseFloat)));
    let mut buf = BytesMut::from(STATUS.replacen("0091", "00x1", 1).as_str());
    assert!(matches!(QPIGSResponse::decode(&mut buf), Err(Error::ParseInt)));
    let mut buf = BytesMut::from(STATUS.replacen("10110110", "10110100", 1).as_str());
    assert!(matches!(QPIGSResponse::decode(&mut buf), Err(Error::InvalidDeviceStatus)));
    let mut buf = BytesMut::from("1.0 2.0");
    assert!(matches!(QPIGSResponse::decode(&mut buf), Err(Error::InvalidPayload)));
}

const RATING: &str = "230.0 13.0 230.0 50.0 13.0 3000 2400 24.0 23.0 21.0 28.2 27.0 0 30 60 0 0 0 - 01 1 0 27.0 0 0";

#[test]
fn rating_errors_name_the_field_kind() {
    let cases = [
        (12, "7", "battery"),
        (15, "2", "input"),
        (16, "3", "output"),
        (17, "4", "charge"),
        (19, "11", "machine"),
        (20, "2", "topology"),
        (21, "5", "mode"),
    ];
    for (idx, code, what) in cases {
        let mut fields: Vec<&str> = RATING.split(' ').collect();
        fields[idx] = code;
        let mut buf = BytesMut::from(fields.join(" ").as_str());
        let r = QPIRIResponse::decode(&mut buf);
        let ok = match (what, r) {
            ("battery", Err(Error::InvalidDeviceBatteryType)) => true,
            ("input", Err(Error::InvalidDeviceInputVoltageRange)) => true,
            ("output", Err(Error::InvalidDeviceOutputSourcePriority)) => true,
            ("charge", Err(Error::InvalidDeviceChargeSourcePriority)) => true,
            ("machine", Err(Error::InvalidDeviceMachineType)) => true,
            ("topology", Err(Error::InvalidDeviceTopology)) => true,
            ("mode", Err(Error::InvalidDeviceOutputMode)) => true,
            _ => false,
        };
        assert!(ok, "{}", what);
    }
    let mut fields: Vec<&str> = RATING.split(' ').collect();
    fields[12] = "9";
    fields[22] = "x";
    let mut buf = BytesMut::from(fields.join(" ").as_str());
    assert!(matches!(QPIRIResponse::decode(&mut buf), Err(Error::ParseFloat)));
    let mut buf = BytesMut::from(RATING.replacen("3000", "-3000", 1).as_str());
    assert_eq!(QPIRIResponse::decode(&mut buf).unwrap().ac_out_rating_apparent_power, -3000);
}

#[test]
fn warning_payload_errors() {
    let mut buf = BytesMut::from("0101");
    assert!(matches!(QPIWSResponse::decode(&mut buf), Err(Error::InvalidPayload)));
    let mut buf = BytesMut::from("02000000000000000000000000000000");
    assert!(matches!(QPIWSResponse::decode(&mut buf), Err(Error::InvalidWarningStatus)));
    let mut buf = BytesMut::from("01000000000002020000000000000000");
    let item = QPIWSResponse::decode(&mut buf).unwrap();
    assert!(item.inverter_fault);
    assert!(!item.bus_over);
}

#[test]
fn malformed_encoding_in_fields() {
    let mut bytes = STATUS.as_bytes().to_vec();
    bytes[2] = 0xFF;
    let mut buf = BytesMut::from(bytes.as_slice());
    assert!(matches!(QPIGSResponse::decode(&mut buf), Err(Error::Utf8)));

    let mut bytes = STATUS.as_bytes().to_vec();
    let at = STATUS.find("10110110").unwrap();
    bytes[at + 3] = 0xFF;
    let mut buf = BytesMut::from(bytes.as_slice());
    assert!(matches!(QPIGSResponse::decode(&mut buf), Err(Error::Utf8)));

    let mut fields: Vec<Vec<u8>> = RATING.split(' ').map(|f| f.as_bytes().to_vec()).collect();
    fields[12] = vec![0xFF];
    fields[22] = b"x".to_vec();
    let line = fields.join(&b' ');
    let mut buf = BytesMut::from(line.as_slice());
    assert!(matches!(QPIRIResponse::decode(&mut buf), Err(Error::Utf8)));

    let mut flags = b"01000000000000000000000000000000".to_vec();
    flags[5] = 0xFF;
    flags[9] = b'7';
    let mut buf = BytesMut::from(flags.as_slice());
    assert!(matches!(QPIWSResponse::decode(&mut buf), Err(Error::Utf8)));
    flags[5] = b'8';
    let mut buf = BytesMut::from(flags.as_slice());
    assert!(matches!(QPIWSResponse::decode(&mut buf), Err(Error::InvalidWarningStatus)));
}
