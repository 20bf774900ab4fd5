use ufire_iso_ec::bus::{BusEvent, Transport};
use ufire_iso_ec::probe::EcProbe;
use ufire_iso_ec::probe::{
    EC_CONFIG_REGISTER, EC_I2C, EC_MEASURE_EC, EC_MEASURE_TEMP, EC_SETTLE_TIME,
    EC_SOLUTION_REGISTER, EC_TASK_REGISTER, EC_TEMP_REGISTER,
};
use ufire_iso_ec::sim::SimBus;

/// Write a four-byte register straight into the simulated register file.
fn preset_float(bus: &mut SimBus, base: u8, value: f32) {
    let bytes = value.to_bits().to_le_bytes();
    for (i, b) in bytes.iter().enumerate() {
        bus.preset(base + i as u8, *b);
    }
}

#[test]
fn float_register_round_trip_is_bit_exact() {
    // Plain values, negative zero, infinities, and NaNs with distinct sign
    // and payload bits: all must survive the wire untouched.
    let patterns: Vec<u32> = vec![
        0x0000_0000,
        0x8000_0000,
        22.1f32.to_bits(),
        (-273.15f32).to_bits(),
        f32::MIN_POSITIVE.to_bits(),
        0x7f80_0000,
        0xff80_0000,
        0x7fc0_0000,
        0x7fc0_0001,
        0xffc0_1234,
        0x7f80_0001,
    ];
    for bits in patterns {
        let mut probe = EcProbe::new(SimBus::new());
        probe._write_register(EC_TEMP_REGISTER, bits).unwrap();
        let back = probe._read_register(EC_TEMP_REGISTER).unwrap();
        assert_eq!(back, bits, "pattern {:#010x} did not round-trip", bits);
    }
}

#[test]
fn reset_yields_nan_and_the_two_defaults() {
    let mut probe = EcProbe::new(SimBus::new());
    probe.reset().unwrap();
    assert!(f32::from_bits(probe.get_calibrate_offset().unwrap()).is_nan());
    assert!(f32::from_bits(probe.get_calibrate_low_reference().unwrap()).is_nan());
    assert!(f32::from_bits(probe.get_calibrate_high_reference().unwrap()).is_nan());
    assert!(f32::from_bits(probe.get_calibrate_low_reading().unwrap()).is_nan());
    assert!(f32::from_bits(probe.get_calibrate_high_reading().unwrap()).is_nan());
    assert_eq!(f32::from_bits(probe.get_temp_constant().unwrap()), 25.0f32);
    assert_eq!(f32::from_bits(probe.get_temp_coefficient().unwrap()), 0.019f32);
}

#[test]
fn compensation_toggle_preserves_the_other_config_bits() {
    // 0xa5 has the compensation bit (bit 1) clear; 0xa7 has it set.
    for initial in [0xa5u8, 0xa7u8, 0x00u8, 0xffu8] {
        let mut bus = SimBus::new();
        bus.preset(EC_CONFIG_REGISTER, initial);
        let mut probe = EcProbe::new(bus);
        probe.use_temperature_compensation(true).unwrap();
        assert_eq!(probe.dev.byte_at(EC_CONFIG_REGISTER), initial | 0x02);
        probe.use_temperature_compensation(false).unwrap();
        assert_eq!(probe.dev.byte_at(EC_CONFIG_REGISTER), initial & !0x02);
    }
}

#[test]
fn dual_point_values_read_back_exactly() {
    let mut probe = EcProbe::new(SimBus::new());
    probe
        .set_dual_point_calibration(
            50.0f32.to_bits(),
            58.0f32.to_bits(),
            48.0f32.to_bits(),
            56.0f32.to_bits(),
        )
        .unwrap();
    assert_eq!(f32::from_bits(probe.get_calibrate_low_reference().unwrap()), 50.0f32);
    assert_eq!(f32::from_bits(probe.get_calibrate_high_reference().unwrap()), 58.0f32);
    assert_eq!(f32::from_bits(probe.get_calibrate_low_reading().unwrap()), 48.0f32);
    assert_eq!(f32::from_bits(probe.get_calibrate_high_reading().unwrap()), 56.0f32);
}

#[test]
fn measure_ec_issues_exactly_the_documented_wire_sequence() {
    let mut probe = EcProbe::new(SimBus::new());
    let temp_bits = 22.1f32.to_bits();
    let b = temp_bits.to_le_bytes();
    probe.measure_ec(temp_bits).unwrap();
    let expected: Vec<BusEvent> = vec![
        // Enable temperature compensation (config starts at 0x00).
        BusEvent::Select(EC_CONFIG_REGISTER),
        BusEvent::Delay(EC_SETTLE_TIME),
        BusEvent::Read,
        BusEvent::Delay(EC_SETTLE_TIME),
        BusEvent::Write(EC_CONFIG_REGISTER, 0x02),
        BusEvent::Delay(EC_SETTLE_TIME),
        // One write of 22.1 into the temperature register, byte by byte.
        BusEvent::Select(EC_TEMP_REGISTER),
        BusEvent::Delay(EC_SETTLE_TIME),
        BusEvent::Write(EC_TEMP_REGISTER, b[0]),
        BusEvent::Delay(EC_SETTLE_TIME),
        BusEvent::Write(EC_TEMP_REGISTER + 1, b[1]),
        BusEvent::Delay(EC_SETTLE_TIME),
        BusEvent::Write(EC_TEMP_REGISTER + 2, b[2]),
        BusEvent::Delay(EC_SETTLE_TIME),
        BusEvent::Write(EC_TEMP_REGISTER + 3, b[3]),
        BusEvent::Delay(EC_SETTLE_TIME),
        // One task dispatch with the EC code, then the measurement settle.
        BusEvent::Write(EC_TASK_REGISTER, EC_MEASURE_EC),
        BusEvent::Delay(750),
        // One read of the mS register.
        BusEvent::Select(1),
        BusEvent::Delay(EC_SETTLE_TIME),
        BusEvent::Read,
        BusEvent::Delay(EC_SETTLE_TIME),
        BusEvent::Read,
        BusEvent::Delay(EC_SETTLE_TIME),
        BusEvent::Read,
        BusEvent::Delay(EC_SETTLE_TIME),
        BusEvent::Read,
        BusEvent::Delay(EC_SETTLE_TIME),
    ];
    assert_eq!(probe.dev.event_log(), &expected);
    // In particular: exactly one write carries the first temperature byte to
    // the temperature register, exactly one task write carries code 80, and
    // the 750 ms block is present.
    let temp_writes = probe
        .dev
        .event_log()
        .iter()
        .filter(|e| matches!(e, BusEvent::Write(addr, _) if *addr == EC_TEMP_REGISTER))
        .count();
    assert_eq!(temp_writes, 1);
    let task_writes: Vec<u8> = probe
        .dev
        .event_log()
        .iter()
        .filter_map(|e| match e {
            BusEvent::Write(addr, v) if *addr == EC_TASK_REGISTER => Some(*v),
            _ => None,
        })
        .collect();
    assert_eq!(task_writes, vec![EC_MEASURE_EC]);
    assert!(probe.dev.event_log().contains(&BusEvent::Delay(750)));
}

#[test]
fn measure_temp_returns_the_temperature_register_and_triggers_code_40() {
    let mut bus = SimBus::new();
    preset_float(&mut bus, EC_TEMP_REGISTER, 21.5f32);
    let mut probe = EcProbe::new(bus);
    let r = probe.measure_temp().unwrap();
    assert_eq!(f32::from_bits(r), 21.5f32);
    assert!(probe
        .dev
        .event_log()
        .contains(&BusEvent::Write(EC_TASK_REGISTER, EC_MEASURE_TEMP)));
    assert!(probe.dev.event_log().contains(&BusEvent::Delay(750)));
}

#[test]
fn measure_salinity_reads_the_psu_register() {
    let mut bus = SimBus::new();
    preset_float(&mut bus, 37, 35.2f32);
    let mut probe = EcProbe::new(bus);
    let r = probe.measure_salinity(22.1f32.to_bits()).unwrap();
    assert_eq!(f32::from_bits(r), 35.2f32);
    // The same trigger code as an EC measurement; only the register read
    // back differs.
    assert!(probe
        .dev
        .event_log()
        .contains(&BusEvent::Write(EC_TASK_REGISTER, EC_MEASURE_EC)));
}

#[test]
fn measure_raw_reads_the_raw_register_without_a_temperature_write() {
    let mut bus = SimBus::new();
    preset_float(&mut bus, 41, 1234.5f32);
    let mut probe = EcProbe::new(bus);
    let r = probe.measure_raw().unwrap();
    assert_eq!(f32::from_bits(r), 1234.5f32);
    let temp_writes = probe
        .dev
        .event_log()
        .iter()
        .filter(|e| matches!(e, BusEvent::Write(addr, _) if *addr == EC_TEMP_REGISTER))
        .count();
    assert_eq!(temp_writes, 0);
}

#[test]
fn eeprom_write_then_read_returns_the_value() {
    let mut probe = EcProbe::new(SimBus::new());
    let written = probe
        .write_eeprom(10.0f32.to_bits(), 99.0f32.to_bits())
        .unwrap();
    assert_eq!(f32::from_bits(written), 99.0f32);
    let read = probe.read_eeprom(10.0f32.to_bits()).unwrap();
    assert_eq!(f32::from_bits(read), 99.0f32);
}

#[test]
fn write_register_stops_at_the_first_failed_byte() {
    // Fallible transactions of a float write: select (0), then the four byte
    // writes (1..=4).  Fail the third byte write, transaction number 3.
    let mut probe = EcProbe::new(SimBus::with_failure(3));
    let bits = 22.1f32.to_bits();
    let b = bits.to_le_bytes();
    assert!(probe._write_register(EC_TEMP_REGISTER, bits).is_err());
    let write_count = probe
        .dev
        .event_log()
        .iter()
        .filter(|e| matches!(e, BusEvent::Write(_, _)))
        .count();
    // Three byte writes were issued (the third was the failing attempt) and
    // nothing after it.
    assert_eq!(write_count, 3);
    assert_eq!(
        probe.dev.event_log().last(),
        Some(&BusEvent::Write(EC_TEMP_REGISTER + 2, b[2]))
    );
    // The first two bytes landed; the failed third byte and the never-sent
    // fourth byte did not.
    assert_eq!(probe.dev.byte_at(EC_TEMP_REGISTER), b[0]);
    assert_eq!(probe.dev.byte_at(EC_TEMP_REGISTER + 1), b[1]);
    assert_eq!(probe.dev.byte_at(EC_TEMP_REGISTER + 2), 0);
    assert_eq!(probe.dev.byte_at(EC_TEMP_REGISTER + 3), 0);
}

#[test]
fn a_failed_measurement_surfaces_the_bus_error() {
    // The very first transaction fails: the whole logical operation fails.
    let mut probe = EcProbe::new(SimBus::with_failure(0));
    assert!(probe.measure_ec(22.1f32.to_bits()).is_err());
}

#[test]
fn reading_past_the_register_space_fails() {
    let mut bus = SimBus::new();
    bus.select_register(200).unwrap();
    assert!(bus.read_byte().is_err());
}

#[test]
fn get_version_and_firmware_read_their_bytes() {
    let mut bus = SimBus::new();
    bus.preset(0, 0x1c);
    bus.preset(53, 0x09);
    let mut probe = EcProbe::new(bus);
    assert_eq!(probe.get_version().unwrap(), 0x1c);
    assert_eq!(probe.get_firmware().unwrap(), 0x09);
}

#[test]
fn set_i2c_address_encodes_the_address_as_a_float_and_triggers_code_4() {
    let mut probe = EcProbe::new(SimBus::new());
    probe.set_i2c_address(0x4f).unwrap();
    let solution = probe._read_register(EC_SOLUTION_REGISTER).unwrap();
    assert_eq!(f32::from_bits(solution), 79.0f32);
    assert_eq!(probe.dev.byte_at(EC_TASK_REGISTER), EC_I2C);
    assert!(probe
        .dev
        .event_log()
        .contains(&BusEvent::Write(EC_TASK_REGISTER, EC_I2C)));
}

#[test]
fn calibrations_write_the_solution_and_their_task_codes() {
    let cases: Vec<(u8, f32)> = vec![(20, 1.413), (10, 1.413), (8, 12.88)];
    for (code, solution) in cases {
        let mut probe = EcProbe::new(SimBus::new());
        match code {
            20 => probe.calibrate_single(solution.to_bits()).unwrap(),
            10 => probe.calibrate_probe_low(solution.to_bits()).unwrap(),
            _ => probe.calibrate_probe_high(solution.to_bits()).unwrap(),
        }
        let stored = probe._read_register(EC_SOLUTION_REGISTER).unwrap();
        assert_eq!(f32::from_bits(stored), solution);
        assert!(probe
            .dev
            .event_log()
            .contains(&BusEvent::Write(EC_TASK_REGISTER, code)));
        assert!(probe.dev.event_log().contains(&BusEvent::Delay(750)));
    }
}

#[test]
fn temperature_constant_and_coefficient_round_trip() {
    let mut probe = EcProbe::new(SimBus::new());
    probe.set_temp_constant(20.0f32.to_bits()).unwrap();
    assert_eq!(f32::from_bits(probe.get_temp_constant().unwrap()), 20.0f32);
    probe.set_temp_coefficient(0.021f32.to_bits()).unwrap();
    assert_eq!(f32::from_bits(probe.get_temp_coefficient().unwrap()), 0.021f32);
}

#[test]
fn set_temp_stores_the_temperature_register() {
    let mut probe = EcProbe::new(SimBus::new());
    probe.set_temp(20.2f32.to_bits()).unwrap();
    let stored = probe._read_register(EC_TEMP_REGISTER).unwrap();
    assert_eq!(f32::from_bits(stored), 20.2f32);
}

#[test]
fn measure_ec_enables_compensation_as_a_side_effect() {
    let mut probe = EcProbe::new(SimBus::new());
    assert_eq!(probe.dev.byte_at(EC_CONFIG_REGISTER) & 0x02, 0);
    probe.measure_ec(22.1f32.to_bits()).unwrap();
    // The legacy contract: measuring EC leaves temperature compensation on.
    assert_eq!(probe.dev.byte_at(EC_CONFIG_REGISTER) & 0x02, 0x02);
}
