//! The EC probe driver: every logical operation of the device, composed from
//! register-bus primitives with the command/settle timing the firmware
//! requires.
//!
//! Contracts are stated against the bus model of [`crate::bus::Transport`]:
//! on success an operation pins down the exact wire log it produced and the
//! exact register-file transform it performed; on a bus failure it guarantees
//! that nothing past the failing transaction was issued
//! ([`crate::bus::aborted_within`]).

use vstd::prelude::*;

use crate::bus::{aborted_within, lemma_abort_after, lemma_abort_extend, BusError, BusEvent,
    Transport, EC_REGISTER_COUNT};
use crate::codec::{float_bits_from_u16, float_bits_of_int, le_byte, lemma_load_le_agrees,
    lemma_store_load, load_le, store_le, word_of_le_bytes};

verus! {

/// Task code: start an EC measurement.
pub const EC_MEASURE_EC: u8 = 80;

/// Task code: start a temperature measurement.
pub const EC_MEASURE_TEMP: u8 = 40;

/// Task code: single-point calibration against the solution register.
pub const EC_CALIBRATE_PROBE: u8 = 20;

/// Task code: dual-point low calibration against the solution register.
pub const EC_CALIBRATE_LOW: u8 = 10;

/// Task code: dual-point high calibration against the solution register.
pub const EC_CALIBRATE_HIGH: u8 = 8;

/// Task code: move the device to the bus address in the solution register.
pub const EC_I2C: u8 = 4;

/// Task code: load one EEPROM cell into the buffer register.
pub const EC_READ: u8 = 2;

/// Task code: store the buffer register into one EEPROM cell.
pub const EC_WRITE: u8 = 1;

/// Hardware version register (one byte).
pub const EC_VERSION_REGISTER: u8 = 0;

/// Measured conductivity in milliSiemens (four bytes).
pub const EC_MS_REGISTER: u8 = 1;

/// Temperature in Celsius (four bytes).
pub const EC_TEMP_REGISTER: u8 = 5;

/// Calibration solution value / generic parameter register (four bytes).
pub const EC_SOLUTION_REGISTER: u8 = 9;

/// Temperature coefficient of the probe (four bytes).
pub const EC_TEMPCOEF_REGISTER: u8 = 13;

/// Dual-point high reference value (four bytes).
pub const EC_CALIBRATE_REFHIGH_REGISTER: u8 = 17;

/// Dual-point low reference value (four bytes).
pub const EC_CALIBRATE_REFLOW_REGISTER: u8 = 21;

/// Dual-point high reading value (four bytes).
pub const EC_CALIBRATE_READHIGH_REGISTER: u8 = 25;

/// Dual-point low reading value (four bytes).
pub const EC_CALIBRATE_READLOW_REGISTER: u8 = 29;

/// Single-point calibration offset (four bytes).
pub const EC_CALIBRATE_OFFSET_REGISTER: u8 = 33;

/// Measured salinity in PSU (four bytes).
pub const EC_PSU_REGISTER: u8 = 37;

/// Raw, uncorrected measurement (four bytes).
pub const EC_RAW_REGISTER: u8 = 41;

/// Temperature-compensation constant (four bytes).
pub const EC_TEMP_COMPENSATION_REGISTER: u8 = 45;

/// Generic read/write buffer for EEPROM access (four bytes).
pub const EC_BUFFER_REGISTER: u8 = 49;

/// Firmware version register (one byte).
pub const EC_FW_VERSION_REGISTER: u8 = 53;

/// Device configuration bit flags (one byte).
pub const EC_CONFIG_REGISTER: u8 = 54;

/// Writing a task code here triggers the firmware action.
pub const EC_TASK_REGISTER: u8 = 55;

/// Bit index of the temperature-compensation flag in the config register.
pub const EC_TEMP_COMPENSATION_CONFIG_BIT: u8 = 1;

/// Settle time after an EC or calibration trigger, in milliseconds.
pub const EC_EC_MEASUREMENT_TIME: u64 = 750;

/// Settle time after a temperature trigger, in milliseconds.
pub const EC_TEMP_MEASURE_TIME: u64 = 750;

/// Settle time after a single bus transaction, in milliseconds.
pub const EC_SETTLE_TIME: u64 = 10;

/// IEEE-754 bits of the quiet NaN the device stores for "uncalibrated".
pub const EC_NAN_BITS: u32 = 0x7fc0_0000;

/// IEEE-754 bits of 25.0, the temperature-compensation constant's default.
pub const EC_TEMP_CONSTANT_DEFAULT_BITS: u32 = 0x41c8_0000;

/// IEEE-754 bits of 0.019, the temperature coefficient's default.
pub const EC_TEMP_COEFFICIENT_DEFAULT_BITS: u32 = 0x3c9b_a5e3;

/// The wire steps of selecting `register` and settling.
pub open spec fn change_register_events(register: u8) -> Seq<BusEvent> {
    seq![BusEvent::Select(register), BusEvent::Delay(EC_SETTLE_TIME)]
}

/// The wire steps of writing the four little-endian bytes of `bits` to
/// `register .. register + 4`, settling after each byte.
pub open spec fn write_payload_events(register: u8, bits: u32) -> Seq<BusEvent> {
    seq![
        BusEvent::Write(register, le_byte(bits, 0)),
        BusEvent::Delay(EC_SETTLE_TIME),
        BusEvent::Write((register + 1) as u8, le_byte(bits, 1)),
        BusEvent::Delay(EC_SETTLE_TIME),
        BusEvent::Write((register + 2) as u8, le_byte(bits, 2)),
        BusEvent::Delay(EC_SETTLE_TIME),
        BusEvent::Write((register + 3) as u8, le_byte(bits, 3)),
        BusEvent::Delay(EC_SETTLE_TIME),
    ]
}

/// The whole wire plan of a four-byte register write.
pub open spec fn write_register_events(register: u8, bits: u32) -> Seq<BusEvent> {
    change_register_events(register) + write_payload_events(register, bits)
}

/// The wire steps of reading four bytes at the current pointer, settling
/// after each byte.
pub open spec fn read_payload_events() -> Seq<BusEvent> {
    seq![
        BusEvent::Read,
        BusEvent::Delay(EC_SETTLE_TIME),
        BusEvent::Read,
        BusEvent::Delay(EC_SETTLE_TIME),
        BusEvent::Read,
        BusEvent::Delay(EC_SETTLE_TIME),
        BusEvent::Read,
        BusEvent::Delay(EC_SETTLE_TIME),
    ]
}

/// The whole wire plan of a four-byte register read.
pub open spec fn read_register_events(register: u8) -> Seq<BusEvent> {
    change_register_events(register) + read_payload_events()
}

/// The wire plan of a one-byte register read (no settle after the byte).
pub open spec fn read_byte_register_events(register: u8) -> Seq<BusEvent> {
    change_register_events(register) + seq![BusEvent::Read]
}

/// The wire plan of dispatching a task code (no settle of its own).
pub open spec fn task_events(code: u8) -> Seq<BusEvent> {
    seq![BusEvent::Write(EC_TASK_REGISTER, code)]
}

/// The config byte after setting or clearing the temperature-compensation
/// bit; every other bit is preserved.
pub open spec fn comp_config_byte(config: u8, enable: bool) -> u8 {
    if enable {
        config | (1u8 << EC_TEMP_COMPENSATION_CONFIG_BIT)
    } else {
        config & !(1u8 << EC_TEMP_COMPENSATION_CONFIG_BIT)
    }
}

/// Bit `i` of a config byte.
pub open spec fn config_bit(config: u8, i: u8) -> bool {
    (config >> i) & 1 == 1
}

/// The wire steps of a config read-modify-write once the register is
/// selected: read the byte, settle, write back `new_config`, settle.
pub open spec fn comp_payload_events(new_config: u8) -> Seq<BusEvent> {
    seq![
        BusEvent::Read,
        BusEvent::Delay(EC_SETTLE_TIME),
        BusEvent::Write(EC_CONFIG_REGISTER, new_config),
        BusEvent::Delay(EC_SETTLE_TIME),
    ]
}

/// The whole wire plan of toggling the temperature-compensation bit, given
/// the config byte the device held beforehand.
pub open spec fn comp_events(config: u8, enable: bool) -> Seq<BusEvent> {
    change_register_events(EC_CONFIG_REGISTER) + comp_payload_events(
        comp_config_byte(config, enable),
    )
}

/// The register file after toggling the temperature-compensation bit.
pub open spec fn config_toggled(m: Seq<u8>, enable: bool) -> Seq<u8> {
    m.update(
        EC_CONFIG_REGISTER as int,
        comp_config_byte(m[EC_CONFIG_REGISTER as int], enable),
    )
}

/// The register file after a task code was written to the task register.
/// (On real hardware the firmware then also fills its result registers; the
/// bus model deliberately stops at the wire, so contracts stated over it read
/// measurement results out of the modelled register file as-is.)
pub open spec fn tasked_mem(m: Seq<u8>, code: u8) -> Seq<u8> {
    m.update(EC_TASK_REGISTER as int, code)
}

/// The whole wire plan of a temperature measurement: trigger, settle 750 ms,
/// read the temperature register.
pub open spec fn measure_temp_events() -> Seq<BusEvent> {
    task_events(EC_MEASURE_TEMP) + seq![BusEvent::Delay(EC_TEMP_MEASURE_TIME)]
        + read_register_events(EC_TEMP_REGISTER)
}

/// The whole wire plan of an EC measurement at a given temperature: enable
/// compensation, write the temperature, trigger, settle 750 ms, read the
/// milliSiemens register.  `m` is the register file beforehand (the config
/// byte read back during the toggle depends on it).
pub open spec fn measure_ec_events(m: Seq<u8>, temp_bits: u32) -> Seq<BusEvent> {
    comp_events(m[EC_CONFIG_REGISTER as int], true) + write_register_events(
        EC_TEMP_REGISTER,
        temp_bits,
    ) + task_events(EC_MEASURE_EC) + seq![BusEvent::Delay(EC_EC_MEASUREMENT_TIME)]
        + read_register_events(EC_MS_REGISTER)
}

/// The whole wire plan of a salinity measurement: write the temperature,
/// trigger the EC task, settle 750 ms, read the PSU register.
pub open spec fn measure_salinity_events(temp_bits: u32) -> Seq<BusEvent> {
    write_register_events(EC_TEMP_REGISTER, temp_bits) + task_events(EC_MEASURE_EC)
        + seq![BusEvent::Delay(EC_EC_MEASUREMENT_TIME)] + read_register_events(EC_PSU_REGISTER)
}

/// The whole wire plan of a raw measurement: trigger the EC task, settle
/// 750 ms, read the raw register.
pub open spec fn measure_raw_events() -> Seq<BusEvent> {
    task_events(EC_MEASURE_EC) + seq![BusEvent::Delay(EC_EC_MEASUREMENT_TIME)]
        + read_register_events(EC_RAW_REGISTER)
}

/// The whole wire plan of a calibration: write the solution value, trigger
/// the given calibration task, settle 750 ms.
pub open spec fn calibrate_events(solution_bits: u32, code: u8) -> Seq<BusEvent> {
    write_register_events(EC_SOLUTION_REGISTER, solution_bits) + task_events(code)
        + seq![BusEvent::Delay(EC_EC_MEASUREMENT_TIME)]
}

/// The register file after a calibration dispatch.
pub open spec fn calibrate_mem(m: Seq<u8>, solution_bits: u32, code: u8) -> Seq<u8> {
    tasked_mem(store_le(m, EC_SOLUTION_REGISTER as int, solution_bits), code)
}

/// The whole wire plan of an EEPROM cell read: write the cell address into
/// the solution register, trigger the read task, read the buffer register.
pub open spec fn read_eeprom_events(address_bits: u32) -> Seq<BusEvent> {
    write_register_events(EC_SOLUTION_REGISTER, address_bits) + task_events(EC_READ)
        + read_register_events(EC_BUFFER_REGISTER)
}

/// The whole wire plan of an EEPROM cell write: write the cell address and
/// the value, trigger the write task, read the buffer register back.
pub open spec fn write_eeprom_events(address_bits: u32, value_bits: u32) -> Seq<BusEvent> {
    write_register_events(EC_SOLUTION_REGISTER, address_bits) + write_register_events(
        EC_BUFFER_REGISTER,
        value_bits,
    ) + task_events(EC_WRITE) + read_register_events(EC_BUFFER_REGISTER)
}

/// The register file after an EEPROM cell write was dispatched.
pub open spec fn write_eeprom_mem(m: Seq<u8>, address_bits: u32, value_bits: u32) -> Seq<u8> {
    tasked_mem(
        store_le(
            store_le(m, EC_SOLUTION_REGISTER as int, address_bits),
            EC_BUFFER_REGISTER as int,
            value_bits,
        ),
        EC_WRITE,
    )
}

/// The whole wire plan of a dual-point calibration: the four reference and
/// reading values written in the fixed order ref-low, ref-high, read-low,
/// read-high.
pub open spec fn dual_point_events(
    ref_low_bits: u32,
    ref_high_bits: u32,
    read_low_bits: u32,
    read_high_bits: u32,
) -> Seq<BusEvent> {
    write_register_events(EC_CALIBRATE_REFLOW_REGISTER, ref_low_bits) + write_register_events(
        EC_CALIBRATE_REFHIGH_REGISTER,
        ref_high_bits,
    ) + write_register_events(EC_CALIBRATE_READLOW_REGISTER, read_low_bits)
        + write_register_events(EC_CALIBRATE_READHIGH_REGISTER, read_high_bits)
}

/// The register file after a dual-point calibration.
pub open spec fn dual_point_mem(
    m: Seq<u8>,
    ref_low_bits: u32,
    ref_high_bits: u32,
    read_low_bits: u32,
    read_high_bits: u32,
) -> Seq<u8> {
    store_le(
        store_le(
            store_le(
                store_le(m, EC_CALIBRATE_REFLOW_REGISTER as int, ref_low_bits),
                EC_CALIBRATE_REFHIGH_REGISTER as int,
                ref_high_bits,
            ),
            EC_CALIBRATE_READLOW_REGISTER as int,
            read_low_bits,
        ),
        EC_CALIBRATE_READHIGH_REGISTER as int,
        read_high_bits,
    )
}

/// The whole wire plan of a calibration reset: NaN into the five calibration
/// registers (ref-low, ref-high, read-low, read-high, offset), then the two
/// compensation defaults.
pub open spec fn reset_events() -> Seq<BusEvent> {
    write_register_events(EC_CALIBRATE_REFLOW_REGISTER, EC_NAN_BITS) + write_register_events(
        EC_CALIBRATE_REFHIGH_REGISTER,
        EC_NAN_BITS,
    ) + write_register_events(EC_CALIBRATE_READLOW_REGISTER, EC_NAN_BITS)
        + write_register_events(EC_CALIBRATE_READHIGH_REGISTER, EC_NAN_BITS)
        + write_register_events(EC_CALIBRATE_OFFSET_REGISTER, EC_NAN_BITS)
        + write_register_events(EC_TEMP_COMPENSATION_REGISTER, EC_TEMP_CONSTANT_DEFAULT_BITS)
        + write_register_events(EC_TEMPCOEF_REGISTER, EC_TEMP_COEFFICIENT_DEFAULT_BITS)
}

/// The register file after a calibration reset: the five calibration values
/// hold NaN, the compensation constant and coefficient their defaults.
pub open spec fn reset_mem(m: Seq<u8>) -> Seq<u8> {
    store_le(
        store_le(
            store_le(
                store_le(
                    store_le(
                        store_le(
                            store_le(m, EC_CALIBRATE_REFLOW_REGISTER as int, EC_NAN_BITS),
                            EC_CALIBRATE_REFHIGH_REGISTER as int,
                            EC_NAN_BITS,
                        ),
                        EC_CALIBRATE_READLOW_REGISTER as int,
                        EC_NAN_BITS,
                    ),
                    EC_CALIBRATE_READHIGH_REGISTER as int,
                    EC_NAN_BITS,
                ),
                EC_CALIBRATE_OFFSET_REGISTER as int,
                EC_NAN_BITS,
            ),
            EC_TEMP_COMPENSATION_REGISTER as int,
            EC_TEMP_CONSTANT_DEFAULT_BITS,
        ),
        EC_TEMPCOEF_REGISTER as int,
        EC_TEMP_COEFFICIENT_DEFAULT_BITS,
    )
}

/// The whole wire plan of moving the device to a new bus address: the
/// address, encoded as an IEEE-754 value, written to the solution register,
/// then the change-address task.
pub open spec fn set_i2c_address_events(address_bits: u32) -> Seq<BusEvent> {
    write_register_events(EC_SOLUTION_REGISTER, address_bits) + task_events(EC_I2C)
}

/// The probe driver.  It owns the transport exclusively: the device's
/// register pointer is shared mutable state, so one driver instance per
/// physical device, and callers serialise access themselves.
pub struct EcProbe<T: Transport> {
    /// The underlying bus transport.
    pub dev: T,
}

impl<T: Transport> EcProbe<T> {
    /// The modelled register file of the device behind the transport.
    pub open spec fn mem(&self) -> Seq<u8> {
        self.dev.mem()
    }

    /// The wire log of the transport.
    pub open spec fn log(&self) -> Seq<BusEvent> {
        self.dev.log()
    }

    /// The driver is usable whenever its transport is well formed and models
    /// the device's fixed register space.
    pub open spec fn wf(&self) -> bool {
        self.dev.wf() && self.dev.mem().len() == EC_REGISTER_COUNT as int
    }

    /// Create a driver over an exclusively owned transport.
    pub fn new(dev: T) -> (r: EcProbe<T>)
        requires
            dev.wf(),
            dev.mem().len() == EC_REGISTER_COUNT as int,
        ensures
            r.wf(),
            r.dev == dev,
    {
        EcProbe { dev }
    }

    /// Point the device at `register` and settle: the mandatory step before
    /// reading any register that is not already selected.
    pub fn _change_register(&mut self, register: u8) -> (r: Result<(), BusError>)
        requires
            old(self).wf(),
        ensures
            final(self).wf(),
            r is Ok ==> final(self).mem() == old(self).mem()
                && final(self).dev.pointer() == register as int
                && final(self).log() == old(self).log() + change_register_events(register),
            r is Err ==> aborted_within(
                old(self).log(),
                final(self).log(),
                change_register_events(register),
            ),
    {
        match self.dev.select_register(register) {
            Ok(()) => {},
            Err(e) => {
                proof {
                    assert(self.log() =~= old(self).log() + change_register_events(
                        register,
                    ).take(1));
                }
                return Err(e);
            },
        }
        self.dev.delay_ms(EC_SETTLE_TIME);
        proof {
            assert(self.log() =~= old(self).log() + change_register_events(register));
        }
        Ok(())
    }

    /// Store a 32-bit value (an IEEE-754 bit pattern) low byte first across
    /// the four registers starting at `register`.  A failure part way leaves
    /// the device's value undefined — bytes already written are not rolled
    /// back — but never issues anything past the failing byte.
    pub fn _write_register(&mut self, register: u8, bits: u32) -> (r: Result<(), BusError>)
        requires
            old(self).wf(),
            register as int + 4 <= EC_REGISTER_COUNT as int,
        ensures
            final(self).wf(),
            r is Ok ==> final(self).mem() == store_le(old(self).mem(), register as int, bits)
                && final(self).log() == old(self).log() + write_register_events(register, bits),
            r is Err ==> aborted_within(
                old(self).log(),
                final(self).log(),
                write_register_events(register, bits),
            ),
    {
        let ghost l0 = self.log();
        let ghost full = write_register_events(register, bits);
        let b0 = (bits & 0xff) as u8;
        let b1 = ((bits >> 8) & 0xff) as u8;
        let b2 = ((bits >> 16) & 0xff) as u8;
        let b3 = ((bits >> 24) & 0xff) as u8;
        match self._change_register(register) {
            Ok(()) => {},
            Err(e) => {
                proof {
                    lemma_abort_extend(
                        l0,
                        self.log(),
                        change_register_events(register),
                        write_payload_events(register, bits),
                    );
                }
                return Err(e);
            },
        }
        match self.dev.write_byte(register, b0) {
            Ok(()) => {},
            Err(e) => {
                proof {
                    assert(self.log() =~= l0 + full.take(3));
                }
                return Err(e);
            },
        }
        self.dev.delay_ms(EC_SETTLE_TIME);
        match self.dev.write_byte(register + 1, b1) {
            Ok(()) => {},
            Err(e) => {
                proof {
                    assert(self.log() =~= l0 + full.take(5));
                }
                return Err(e);
            },
        }
        self.dev.delay_ms(EC_SETTLE_TIME);
        match self.dev.write_byte(register + 2, b2) {
            Ok(()) => {},
            Err(e) => {
                proof {
                    assert(self.log() =~= l0 + full.take(7));
                }
                return Err(e);
            },
        }
        self.dev.delay_ms(EC_SETTLE_TIME);
        match self.dev.write_byte(register + 3, b3) {
            Ok(()) => {},
            Err(e) => {
                proof {
                    assert(self.log() =~= l0 + full.take(9));
                }
                return Err(e);
            },
        }
        self.dev.delay_ms(EC_SETTLE_TIME);
        proof {
            assert(self.log() =~= l0 + full);
            assert(self.mem() =~= store_le(old(self).mem(), register as int, bits));
        }
        Ok(())
    }

    /// Load the 32-bit value stored low byte first across the four registers
    /// starting at `register`.
    pub fn _read_register(&mut self, register: u8) -> (r: Result<u32, BusError>)
        requires
            old(self).wf(),
            register as int + 4 <= EC_REGISTER_COUNT as int,
        ensures
            final(self).wf(),
            r is Ok ==> final(self).mem() == old(self).mem()
                && r->Ok_0 == load_le(old(self).mem(), register as int)
                && final(self).log() == old(self).log() + read_register_events(register),
            r is Err ==> aborted_within(
                old(self).log(),
                final(self).log(),
                read_register_events(register),
            ),
    {
        let ghost l0 = self.log();
        let ghost full = read_register_events(register);
        match self._change_register(register) {
            Ok(()) => {},
            Err(e) => {
                proof {
                    lemma_abort_extend(
                        l0,
                        self.log(),
                        change_register_events(register),
                        read_payload_events(),
                    );
                }
                return Err(e);
            },
        }
        let b0 = match self.dev.read_byte() {
            Ok(b) => b,
            Err(e) => {
                proof {
                    assert(self.log() =~= l0 + full.take(3));
                }
                return Err(e);
            },
        };
        self.dev.delay_ms(EC_SETTLE_TIME);
        let b1 = match self.dev.read_byte() {
            Ok(b) => b,
            Err(e) => {
                proof {
                    assert(self.log() =~= l0 + full.take(5));
                }
                return Err(e);
            },
        };
        self.dev.delay_ms(EC_SETTLE_TIME);
        let b2 = match self.dev.read_byte() {
            Ok(b) => b,
            Err(e) => {
                proof {
                    assert(self.log() =~= l0 + full.take(7));
                }
                return Err(e);
            },
        };
        self.dev.delay_ms(EC_SETTLE_TIME);
        let b3 = match self.dev.read_byte() {
            Ok(b) => b,
            Err(e) => {
                proof {
                    assert(self.log() =~= l0 + full.take(9));
                }
                return Err(e);
            },
        };
        self.dev.delay_ms(EC_SETTLE_TIME);
        let bits = (b0 as u32) | ((b1 as u32) << 8) | ((b2 as u32) << 16) | ((b3 as u32) << 24);
        proof {
            assert(self.log() =~= l0 + full);
            assert(bits == word_of_le_bytes(b0, b1, b2, b3));
        }
        Ok(bits)
    }

    /// Write a task code to the task register, triggering the firmware
    /// action.  Any settle or measurement delay is the caller's business.
    fn dispatch_task(&mut self, code: u8) -> (r: Result<(), BusError>)
        requires
            old(self).wf(),
        ensures
            final(self).wf(),
            r is Ok ==> final(self).mem() == tasked_mem(old(self).mem(), code)
                && final(self).log() == old(self).log() + task_events(code),
            r is Err ==> aborted_within(old(self).log(), final(self).log(), task_events(code)),
    {
        match self.dev.write_byte(EC_TASK_REGISTER, code) {
            Ok(()) => {
                proof {
                    assert(self.log() =~= old(self).log() + task_events(code));
                }
                Ok(())
            },
            Err(e) => {
                proof {
                    assert(self.log() =~= old(self).log() + task_events(code).take(1));
                }
                Err(e)
            },
        }
    }

    /// Switch temperature compensation on or off: a read-modify-write of the
    /// compensation bit in the config register that preserves every other
    /// (reserved) bit.
    pub fn use_temperature_compensation(&mut self, b: bool) -> (r: Result<(), BusError>)
        requires
            old(self).wf(),
        ensures
            final(self).wf(),
            r is Ok ==> final(self).mem() == config_toggled(old(self).mem(), b)
                && final(self).log() == old(self).log() + comp_events(
                old(self).mem()[EC_CONFIG_REGISTER as int],
                b,
            ),
            r is Err ==> aborted_within(
                old(self).log(),
                final(self).log(),
                comp_events(old(self).mem()[EC_CONFIG_REGISTER as int], b),
            ),
    {
        let ghost l0 = self.log();
        let ghost full = comp_events(old(self).mem()[EC_CONFIG_REGISTER as int], b);
        match self._change_register(EC_CONFIG_REGISTER) {
            Ok(()) => {},
            Err(e) => {
                proof {
                    lemma_abort_extend(
                        l0,
                        self.log(),
                        change_register_events(EC_CONFIG_REGISTER),
                        comp_payload_events(
                            comp_config_byte(old(self).mem()[EC_CONFIG_REGISTER as int], b),
                        ),
                    );
                }
                return Err(e);
            },
        }
        let config = match self.dev.read_byte() {
            Ok(c) => c,
            Err(e) => {
                proof {
                    assert(self.log() =~= l0 + full.take(3));
                }
                return Err(e);
            },
        };
        self.dev.delay_ms(EC_SETTLE_TIME);
        let new_config = if b {
            config | (1u8 << EC_TEMP_COMPENSATION_CONFIG_BIT)
        } else {
            config & !(1u8 << EC_TEMP_COMPENSATION_CONFIG_BIT)
        };
        match self.dev.write_byte(EC_CONFIG_REGISTER, new_config) {
            Ok(()) => {},
            Err(e) => {
                proof {
                    assert(self.log() =~= l0 + full.take(5));
                }
                return Err(e);
            },
        }
        self.dev.delay_ms(EC_SETTLE_TIME);
        proof {
            assert(self.log() =~= l0 + full);
            assert(self.mem() =~= config_toggled(old(self).mem(), b));
        }
        Ok(())
    }

    /// Read the device's hardware version byte.
    pub fn get_version(&mut self) -> (r: Result<u8, BusError>)
        requires
            old(self).wf(),
        ensures
            final(self).wf(),
            r is Ok ==> final(self).mem() == old(self).mem()
                && r->Ok_0 == old(self).mem()[EC_VERSION_REGISTER as int]
                && final(self).log() == old(self).log() + read_byte_register_events(
                EC_VERSION_REGISTER,
            ),
            r is Err ==> aborted_within(
                old(self).log(),
                final(self).log(),
                read_byte_register_events(EC_VERSION_REGISTER),
            ),
    {
        self.read_byte_register(EC_VERSION_REGISTER)
    }

    /// Read the device's firmware version byte.
    pub fn get_firmware(&mut self) -> (r: Result<u8, BusError>)
        requires
            old(self).wf(),
        ensures
            final(self).wf(),
            r is Ok ==> final(self).mem() == old(self).mem()
                && r->Ok_0 == old(self).mem()[EC_FW_VERSION_REGISTER as int]
                && final(self).log() == old(self).log() + read_byte_register_events(
                EC_FW_VERSION_REGISTER,
            ),
            r is Err ==> aborted_within(
                old(self).log(),
                final(self).log(),
                read_byte_register_events(EC_FW_VERSION_REGISTER),
            ),
    {
        self.read_byte_register(EC_FW_VERSION_REGISTER)
    }

    /// Select `register` and read its single byte.
    fn read_byte_register(&mut self, register: u8) -> (r: Result<u8, BusError>)
        requires
            old(self).wf(),
        ensures
            final(self).wf(),
            r is Ok ==> final(self).mem() == old(self).mem()
                && r->Ok_0 == old(self).mem()[register as int]
                && final(self).log() == old(self).log() + read_byte_register_events(register),
            r is Err ==> aborted_within(
                old(self).log(),
                final(self).log(),
                read_byte_register_events(register),
            ),
    {
        let ghost l0 = self.log();
        let ghost full = read_byte_register_events(register);
        match self._change_register(register) {
            Ok(()) => {},
            Err(e) => {
                proof {
                    lemma_abort_extend(
                        l0,
                        self.log(),
                        change_register_events(register),
                        seq![BusEvent::Read],
                    );
                }
                return Err(e);
            },
        }
        match self.dev.read_byte() {
            Ok(value) => {
                proof {
                    assert(self.log() =~= l0 + full);
                }
                Ok(value)
            },
            Err(e) => {
                proof {
                    assert(self.log() =~= l0 + full.take(3));
                }
                Err(e)
            },
        }
    }

    /// Dispatch a task code, wait `settle` milliseconds for the firmware,
    /// then read the four-byte result register.
    fn trigger_and_read(&mut self, code: u8, settle: u64, register: u8) -> (r: Result<
        u32,
        BusError,
    >)
        requires
            old(self).wf(),
            register as int + 4 <= EC_REGISTER_COUNT as int,
        ensures
            final(self).wf(),
            r is Ok ==> final(self).mem() == tasked_mem(old(self).mem(), code)
                && r->Ok_0 == load_le(tasked_mem(old(self).mem(), code), register as int)
                && final(self).log() == old(self).log() + (task_events(code)
                + seq![BusEvent::Delay(settle)] + read_register_events(register)),
            r is Err ==> aborted_within(
                old(self).log(),
                final(self).log(),
                task_events(code) + seq![BusEvent::Delay(settle)] + read_register_events(register),
            ),
    {
        let ghost l0 = self.log();
        let ghost a = task_events(code);
        let ghost b = seq![BusEvent::Delay(settle)];
        let ghost c = read_register_events(register);
        match self.dispatch_task(code) {
            Ok(()) => {},
            Err(e) => {
                proof {
                    lemma_abort_extend(l0, self.log(), a, b);
                    lemma_abort_extend(l0, self.log(), a + b, c);
                }
                return Err(e);
            },
        }
        self.dev.delay_ms(settle);
        proof {
            assert(self.log() =~= l0 + (a + b));
        }
        match self._read_register(register) {
            Ok(v) => {
                proof {
                    assert(self.log() =~= l0 + (a + b + c));
                }
                Ok(v)
            },
            Err(e) => {
                proof {
                    lemma_abort_after(l0, l0 + (a + b), self.log(), a + b, c);
                }
                Err(e)
            },
        }
    }

    /// Write the solution value and dispatch one of the calibration task
    /// codes, then wait out the measurement settle time.  The resulting
    /// calibration is persisted device-side; there is no separate commit.
    fn run_calibration(&mut self, solution_bits: u32, code: u8) -> (r: Result<(), BusError>)
        requires
            old(self).wf(),
        ensures
            final(self).wf(),
            r is Ok ==> final(self).mem() == calibrate_mem(old(self).mem(), solution_bits, code)
                && final(self).log() == old(self).log() + calibrate_events(solution_bits, code),
            r is Err ==> aborted_within(
                old(self).log(),
                final(self).log(),
                calibrate_events(solution_bits, code),
            ),
    {
        let ghost l0 = self.log();
        let ghost a = write_register_events(EC_SOLUTION_REGISTER, solution_bits);
        let ghost b = task_events(code);
        let ghost c = seq![BusEvent::Delay(EC_EC_MEASUREMENT_TIME)];
        match self._write_register(EC_SOLUTION_REGISTER, solution_bits) {
            Ok(()) => {},
            Err(e) => {
                proof {
                    lemma_abort_extend(l0, self.log(), a, b);
                    lemma_abort_extend(l0, self.log(), a + b, c);
                }
                return Err(e);
            },
        }
        match self.dispatch_task(code) {
            Ok(()) => {},
            Err(e) => {
                proof {
                    lemma_abort_after(l0, l0 + a, self.log(), a, b);
                    lemma_abort_extend(l0, self.log(), a + b, c);
                }
                return Err(e);
            },
        }
        self.dev.delay_ms(EC_EC_MEASUREMENT_TIME);
        proof {
            assert(self.log() =~= l0 + calibrate_events(solution_bits, code));
        }
        Ok(())
    }

    /// Trigger a temperature conversion, wait 750 ms, and return the IEEE-754
    /// bits of the temperature in Celsius.
    pub fn measure_temp(&mut self) -> (r: Result<u32, BusError>)
        requires
            old(self).wf(),
        ensures
            final(self).wf(),
            r is Ok ==> final(self).mem() == tasked_mem(old(self).mem(), EC_MEASURE_TEMP)
                && r->Ok_0 == load_le(old(self).mem(), EC_TEMP_REGISTER as int)
                && final(self).log() == old(self).log() + measure_temp_events(),
            r is Err ==> aborted_within(old(self).log(), final(self).log(), measure_temp_events()),
    {
        let r = self.trigger_and_read(EC_MEASURE_TEMP, EC_TEMP_MEASURE_TIME, EC_TEMP_REGISTER);
        proof {
            if r is Ok {
                let m = tasked_mem(old(self).mem(), EC_MEASURE_TEMP);
                let base = EC_TEMP_REGISTER as int;
                assert(m[base] == old(self).mem()[base]);
                assert(m[base + 1] == old(self).mem()[base + 1]);
                assert(m[base + 2] == old(self).mem()[base + 2]);
                assert(m[base + 3] == old(self).mem()[base + 3]);
                lemma_load_le_agrees(m, old(self).mem(), base);
            }
        }
        r
    }

    /// Write the IEEE-754 bits of the temperature the device should use.
    pub fn set_temp(&mut self, temp_bits: u32) -> (r: Result<(), BusError>)
        requires
            old(self).wf(),
        ensures
            final(self).wf(),
            r is Ok ==> final(self).mem() == store_le(
                old(self).mem(),
                EC_TEMP_REGISTER as int,
                temp_bits,
            ) && final(self).log() == old(self).log() + write_register_events(
                EC_TEMP_REGISTER,
                temp_bits,
            ),
            r is Err ==> aborted_within(
                old(self).log(),
                final(self).log(),
                write_register_events(EC_TEMP_REGISTER, temp_bits),
            ),
    {
        self._write_register(EC_TEMP_REGISTER, temp_bits)
    }

    /// Single-point calibration against a solution of the given conductivity
    /// (IEEE-754 bits of a mS value).
    pub fn calibrate_single(&mut self, solution_bits: u32) -> (r: Result<(), BusError>)
        requires
            old(self).wf(),
        ensures
            final(self).wf(),
            r is Ok ==> final(self).mem() == calibrate_mem(
                old(self).mem(),
                solution_bits,
                EC_CALIBRATE_PROBE,
            ) && final(self).log() == old(self).log() + calibrate_events(
                solution_bits,
                EC_CALIBRATE_PROBE,
            ),
            r is Err ==> aborted_within(
                old(self).log(),
                final(self).log(),
                calibrate_events(solution_bits, EC_CALIBRATE_PROBE),
            ),
    {
        self.run_calibration(solution_bits, EC_CALIBRATE_PROBE)
    }

    /// Dual-point calibration of the low reading against a solution of the
    /// given conductivity (IEEE-754 bits of a mS value).
    pub fn calibrate_probe_low(&mut self, solution_bits: u32) -> (r: Result<(), BusError>)
        requires
            old(self).wf(),
        ensures
            final(self).wf(),
            r is Ok ==> final(self).mem() == calibrate_mem(
                old(self).mem(),
                solution_bits,
                EC_CALIBRATE_LOW,
            ) && final(self).log() == old(self).log() + calibrate_events(
                solution_bits,
                EC_CALIBRATE_LOW,
            ),
            r is Err ==> aborted_within(
                old(self).log(),
                final(self).log(),
                calibrate_events(solution_bits, EC_CALIBRATE_LOW),
            ),
    {
        self.run_calibration(solution_bits, EC_CALIBRATE_LOW)
    }

    /// Dual-point calibration of the high reading against a solution of the
    /// given conductivity (IEEE-754 bits of a mS value).
    pub fn calibrate_probe_high(&mut self, solution_bits: u32) -> (r: Result<(), BusError>)
        requires
            old(self).wf(),
        ensures
            final(self).wf(),
            r is Ok ==> final(self).mem() == calibrate_mem(
                old(self).mem(),
                solution_bits,
                EC_CALIBRATE_HIGH,
            ) && final(self).log() == old(self).log() + calibrate_events(
                solution_bits,
                EC_CALIBRATE_HIGH,
            ),
            r is Err ==> aborted_within(
                old(self).log(),
                final(self).log(),
                calibrate_events(solution_bits, EC_CALIBRATE_HIGH),
            ),
    {
        self.run_calibration(solution_bits, EC_CALIBRATE_HIGH)
    }

    /// Measure EC at the given temperature (IEEE-754 bits of Celsius) and
    /// return the IEEE-754 bits of the conductivity in milliSiemens.
    ///
    /// Part of the device's legacy contract: this first switches temperature
    /// compensation on, and leaves it on — a deliberate side effect on config
    /// state that is preserved here.
    pub fn measure_ec(&mut self, temp_bits: u32) -> (r: Result<u32, BusError>)
        requires
            old(self).wf(),
        ensures
            final(self).wf(),
            r is Ok ==> final(self).mem() == tasked_mem(
                store_le(
                    config_toggled(old(self).mem(), true),
                    EC_TEMP_REGISTER as int,
                    temp_bits,
                ),
                EC_MEASURE_EC,
            ) && r->Ok_0 == load_le(old(self).mem(), EC_MS_REGISTER as int)
                && final(self).log() == old(self).log() + measure_ec_events(
                old(self).mem(),
                temp_bits,
            ),
            r is Err ==> aborted_within(
                old(self).log(),
                final(self).log(),
                measure_ec_events(old(self).mem(), temp_bits),
            ),
    {
        let ghost m0 = self.mem();
        let ghost l0 = self.log();
        let ghost a = comp_events(m0[EC_CONFIG_REGISTER as int], true);
        let ghost b = write_register_events(EC_TEMP_REGISTER, temp_bits);
        let ghost chunk = task_events(EC_MEASURE_EC) + seq![
            BusEvent::Delay(EC_EC_MEASUREMENT_TIME),
        ] + read_register_events(EC_MS_REGISTER);
        match self.use_temperature_compensation(true) {
            Ok(()) => {},
            Err(e) => {
                proof {
                    lemma_abort_extend(l0, self.log(), a, b);
                    lemma_abort_extend(l0, self.log(), a + b, chunk);
                    assert(a + b + chunk =~= measure_ec_events(m0, temp_bits));
                }
                return Err(e);
            },
        }
        match self._write_register(EC_TEMP_REGISTER, temp_bits) {
            Ok(()) => {},
            Err(e) => {
                proof {
                    lemma_abort_after(l0, l0 + a, self.log(), a, b);
                    lemma_abort_extend(l0, self.log(), a + b, chunk);
                    assert(a + b + chunk =~= measure_ec_events(m0, temp_bits));
                }
                return Err(e);
            },
        }
        proof {
            assert(self.log() =~= l0 + (a + b));
        }
        match self.trigger_and_read(EC_MEASURE_EC, EC_EC_MEASUREMENT_TIME, EC_MS_REGISTER) {
            Ok(v) => {
                proof {
                    assert(self.log() =~= l0 + measure_ec_events(m0, temp_bits));
                    let m = tasked_mem(
                        store_le(config_toggled(m0, true), EC_TEMP_REGISTER as int, temp_bits),
                        EC_MEASURE_EC,
                    );
                    let base = EC_MS_REGISTER as int;
                    assert(m[base] == m0[base]);
                    assert(m[base + 1] == m0[base + 1]);
                    assert(m[base + 2] == m0[base + 2]);
                    assert(m[base + 3] == m0[base + 3]);
                    lemma_load_le_agrees(m, m0, base);
                }
                Ok(v)
            },
            Err(e) => {
                proof {
                    lemma_abort_after(l0, l0 + (a + b), self.log(), a + b, chunk);
                    assert(a + b + chunk =~= measure_ec_events(m0, temp_bits));
                }
                Err(e)
            },
        }
    }

    /// Measure at the given temperature (IEEE-754 bits of Celsius) and return
    /// the IEEE-754 bits of the salinity in PSU.  One firmware action fills
    /// the mS, PSU and raw registers alike; this operation merely reads the
    /// PSU register back.
    pub fn measure_salinity(&mut self, temp_bits: u32) -> (r: Result<u32, BusError>)
        requires
            old(self).wf(),
        ensures
            final(self).wf(),
            r is Ok ==> final(self).mem() == tasked_mem(
                store_le(old(self).mem(), EC_TEMP_REGISTER as int, temp_bits),
                EC_MEASURE_EC,
            ) && r->Ok_0 == load_le(old(self).mem(), EC_PSU_REGISTER as int)
                && final(self).log() == old(self).log() + measure_salinity_events(temp_bits),
            r is Err ==> aborted_within(
                old(self).log(),
                final(self).log(),
                measure_salinity_events(temp_bits),
            ),
    {
        let ghost m0 = self.mem();
        let ghost l0 = self.log();
        let ghost a = write_register_events(EC_TEMP_REGISTER, temp_bits);
        let ghost chunk = task_events(EC_MEASURE_EC) + seq![
            BusEvent::Delay(EC_EC_MEASUREMENT_TIME),
        ] + read_register_events(EC_PSU_REGISTER);
        match self._write_register(EC_TEMP_REGISTER, temp_bits) {
            Ok(()) => {},
            Err(e) => {
                proof {
                    lemma_abort_extend(l0, self.log(), a, chunk);
                    assert(a + chunk =~= measure_salinity_events(temp_bits));
                }
                return Err(e);
            },
        }
        match self.trigger_and_read(EC_MEASURE_EC, EC_EC_MEASUREMENT_TIME, EC_PSU_REGISTER) {
            Ok(v) => {
                proof {
                    assert(self.log() =~= l0 + measure_salinity_events(temp_bits));
                    let m = tasked_mem(
                        store_le(m0, EC_TEMP_REGISTER as int, temp_bits),
                        EC_MEASURE_EC,
                    );
                    let base = EC_PSU_REGISTER as int;
                    assert(m[base] == m0[base]);
                    assert(m[base + 1] == m0[base + 1]);
                    assert(m[base + 2] == m0[base + 2]);
                    assert(m[base + 3] == m0[base + 3]);
                    lemma_load_le_agrees(m, m0, base);
                }
                Ok(v)
            },
            Err(e) => {
                proof {
                    lemma_abort_after(l0, l0 + a, self.log(), a, chunk);
                    assert(a + chunk =~= measure_salinity_events(temp_bits));
                }
                Err(e)
            },
        }
    }

    /// Trigger an EC measurement and return the IEEE-754 bits of the raw,
    /// uncorrected reading.  No temperature parameter is involved.
    pub fn measure_raw(&mut self) -> (r: Result<u32, BusError>)
        requires
            old(self).wf(),
        ensures
            final(self).wf(),
            r is Ok ==> final(self).mem() == tasked_mem(old(self).mem(), EC_MEASURE_EC)
                && r->Ok_0 == load_le(old(self).mem(), EC_RAW_REGISTER as int)
                && final(self).log() == old(self).log() + measure_raw_events(),
            r is Err ==> aborted_within(old(self).log(), final(self).log(), measure_raw_events()),
    {
        let r = self.trigger_and_read(EC_MEASURE_EC, EC_EC_MEASUREMENT_TIME, EC_RAW_REGISTER);
        proof {
            if r is Ok {
                let m = tasked_mem(old(self).mem(), EC_MEASURE_EC);
                let base = EC_RAW_REGISTER as int;
                assert(m[base] == old(self).mem()[base]);
                assert(m[base + 1] == old(self).mem()[base + 1]);
                assert(m[base + 2] == old(self).mem()[base + 2]);
                assert(m[base + 3] == old(self).mem()[base + 3]);
                lemma_load_le_agrees(m, old(self).mem(), base);
            }
        }
        r
    }

    /// Set the temperature-compensation constant (IEEE-754 bits); persisted
    /// in the device's EEPROM.
    pub fn set_temp_constant(&mut self, constant_bits: u32) -> (r: Result<(), BusError>)
        requires
            old(self).wf(),
        ensures
            final(self).wf(),
            r is Ok ==> final(self).mem() == store_le(
                old(self).mem(),
                EC_TEMP_COMPENSATION_REGISTER as int,
                constant_bits,
            ) && final(self).log() == old(self).log() + write_register_events(
                EC_TEMP_COMPENSATION_REGISTER,
                constant_bits,
            ),
            r is Err ==> aborted_within(
                old(self).log(),
                final(self).log(),
                write_register_events(EC_TEMP_COMPENSATION_REGISTER, constant_bits),
            ),
    {
        self._write_register(EC_TEMP_COMPENSATION_REGISTER, constant_bits)
    }

    /// Read the temperature-compensation constant (IEEE-754 bits).
    pub fn get_temp_constant(&mut self) -> (r: Result<u32, BusError>)
        requires
            old(self).wf(),
        ensures
            final(self).wf(),
            r is Ok ==> final(self).mem() == old(self).mem()
                && r->Ok_0 == load_le(old(self).mem(), EC_TEMP_COMPENSATION_REGISTER as int)
                && final(self).log() == old(self).log() + read_register_events(
                EC_TEMP_COMPENSATION_REGISTER,
            ),
            r is Err ==> aborted_within(
                old(self).log(),
                final(self).log(),
                read_register_events(EC_TEMP_COMPENSATION_REGISTER),
            ),
    {
        self._read_register(EC_TEMP_COMPENSATION_REGISTER)
    }

    /// Set the temperature coefficient (IEEE-754 bits); persisted in the
    /// device's EEPROM.
    pub fn set_temp_coefficient(&mut self, coefficient_bits: u32) -> (r: Result<(), BusError>)
        requires
            old(self).wf(),
        ensures
            final(self).wf(),
            r is Ok ==> final(self).mem() == store_le(
                old(self).mem(),
                EC_TEMPCOEF_REGISTER as int,
                coefficient_bits,
            ) && final(self).log() == old(self).log() + write_register_events(
                EC_TEMPCOEF_REGISTER,
                coefficient_bits,
            ),
            r is Err ==> aborted_within(
                old(self).log(),
                final(self).log(),
                write_register_events(EC_TEMPCOEF_REGISTER, coefficient_bits),
            ),
    {
        self._write_register(EC_TEMPCOEF_REGISTER, coefficient_bits)
    }

    /// Read the temperature coefficient (IEEE-754 bits).
    pub fn get_temp_coefficient(&mut self) -> (r: Result<u32, BusError>)
        requires
            old(self).wf(),
        ensures
            final(self).wf(),
            r is Ok ==> final(self).mem() == old(self).mem()
                && r->Ok_0 == load_le(old(self).mem(), EC_TEMPCOEF_REGISTER as int)
                && final(self).log() == old(self).log() + read_register_events(
                EC_TEMPCOEF_REGISTER,
            ),
            r is Err ==> aborted_within(
                old(self).log(),
                final(self).log(),
                read_register_events(EC_TEMPCOEF_REGISTER),
            ),
    {
        self._read_register(EC_TEMPCOEF_REGISTER)
    }

    /// Read one EEPROM cell: the cell address (an IEEE-754 value, a quirk of
    /// the wire format) goes into the solution register, the read task moves
    /// the cell into the buffer register, and the buffer is read back.  In
    /// the bus model the buffer register is returned as the transport holds
    /// it; on hardware the firmware fills it from the addressed cell first.
    pub fn read_eeprom(&mut self, address_bits: u32) -> (r: Result<u32, BusError>)
        requires
            old(self).wf(),
        ensures
            final(self).wf(),
            r is Ok ==> final(self).mem() == tasked_mem(
                store_le(old(self).mem(), EC_SOLUTION_REGISTER as int, address_bits),
                EC_READ,
            ) && r->Ok_0 == load_le(old(self).mem(), EC_BUFFER_REGISTER as int)
                && final(self).log() == old(self).log() + read_eeprom_events(address_bits),
            r is Err ==> aborted_within(
                old(self).log(),
                final(self).log(),
                read_eeprom_events(address_bits),
            ),
    {
        let ghost m0 = self.mem();
        let ghost l0 = self.log();
        let ghost a = write_register_events(EC_SOLUTION_REGISTER, address_bits);
        let ghost b = task_events(EC_READ);
        let ghost c = read_register_events(EC_BUFFER_REGISTER);
        match self._write_register(EC_SOLUTION_REGISTER, address_bits) {
            Ok(()) => {},
            Err(e) => {
                proof {
                    lemma_abort_extend(l0, self.log(), a, b);
                    lemma_abort_extend(l0, self.log(), a + b, c);
                }
                return Err(e);
            },
        }
        match self.dispatch_task(EC_READ) {
            Ok(()) => {},
            Err(e) => {
                proof {
                    lemma_abort_after(l0, l0 + a, self.log(), a, b);
                    lemma_abort_extend(l0, self.log(), a + b, c);
                }
                return Err(e);
            },
        }
        proof {
            assert(self.log() =~= l0 + (a + b));
        }
        match self._read_register(EC_BUFFER_REGISTER) {
            Ok(v) => {
                proof {
                    assert(self.log() =~= l0 + (a + b + c));
                    let m = tasked_mem(
                        store_le(m0, EC_SOLUTION_REGISTER as int, address_bits),
                        EC_READ,
                    );
                    let base = EC_BUFFER_REGISTER as int;
                    assert(m[base] == m0[base]);
                    assert(m[base + 1] == m0[base + 1]);
                    assert(m[base + 2] == m0[base + 2]);
                    assert(m[base + 3] == m0[base + 3]);
                    lemma_load_le_agrees(m, m0, base);
                }
                Ok(v)
            },
            Err(e) => {
                proof {
                    lemma_abort_after(l0, l0 + (a + b), self.log(), a + b, c);
                }
                Err(e)
            },
        }
    }

    /// Write one EEPROM cell: cell address into the solution register, value
    /// into the buffer register, then the write task; the buffer register is
    /// read back and returned.  Over a transport that round-trips the buffer
    /// register faithfully, the returned bits equal `value_bits` exactly.
    pub fn write_eeprom(&mut self, address_bits: u32, value_bits: u32) -> (r: Result<
        u32,
        BusError,
    >)
        requires
            old(self).wf(),
        ensures
            final(self).wf(),
            r is Ok ==> final(self).mem() == write_eeprom_mem(
                old(self).mem(),
                address_bits,
                value_bits,
            ) && r->Ok_0 == value_bits && final(self).log() == old(self).log()
                + write_eeprom_events(address_bits, value_bits),
            r is Err ==> aborted_within(
                old(self).log(),
                final(self).log(),
                write_eeprom_events(address_bits, value_bits),
            ),
    {
        let ghost m0 = self.mem();
        let ghost l0 = self.log();
        let ghost a = write_register_events(EC_SOLUTION_REGISTER, address_bits);
        let ghost b = write_register_events(EC_BUFFER_REGISTER, value_bits);
        let ghost c = task_events(EC_WRITE);
        let ghost d = read_register_events(EC_BUFFER_REGISTER);
        match self._write_register(EC_SOLUTION_REGISTER, address_bits) {
            Ok(()) => {},
            Err(e) => {
                proof {
                    lemma_abort_extend(l0, self.log(), a, b);
                    lemma_abort_extend(l0, self.log(), a + b, c);
                    lemma_abort_extend(l0, self.log(), a + b + c, d);
                }
                return Err(e);
            },
        }
        match self._write_register(EC_BUFFER_REGISTER, value_bits) {
            Ok(()) => {},
            Err(e) => {
                proof {
                    lemma_abort_after(l0, l0 + a, self.log(), a, b);
                    lemma_abort_extend(l0, self.log(), a + b, c);
                    lemma_abort_extend(l0, self.log(), a + b + c, d);
                }
                return Err(e);
            },
        }
        proof {
            assert(self.log() =~= l0 + (a + b));
        }
        match self.dispatch_task(EC_WRITE) {
            Ok(()) => {},
            Err(e) => {
                proof {
                    lemma_abort_after(l0, l0 + (a + b), self.log(), a + b, c);
                    lemma_abort_extend(l0, self.log(), a + b + c, d);
                }
                return Err(e);
            },
        }
        proof {
            assert(self.log() =~= l0 + (a + b + c));
        }
        match self._read_register(EC_BUFFER_REGISTER) {
            Ok(v) => {
                proof {
                    assert(self.log() =~= l0 + (a + b + c + d));
                    let m1 = store_le(m0, EC_SOLUTION_REGISTER as int, address_bits);
                    lemma_store_load(m1, EC_BUFFER_REGISTER as int, value_bits);
                    let m2 = store_le(m1, EC_BUFFER_REGISTER as int, value_bits);
                    let m = tasked_mem(m2, EC_WRITE);
                    let base = EC_BUFFER_REGISTER as int;
                    assert(m[base] == m2[base]);
                    assert(m[base + 1] == m2[base + 1]);
                    assert(m[base + 2] == m2[base + 2]);
                    assert(m[base + 3] == m2[base + 3]);
                    lemma_load_le_agrees(m, m2, base);
                }
                Ok(v)
            },
            Err(e) => {
                proof {
                    lemma_abort_after(l0, l0 + (a + b + c), self.log(), a + b + c, d);
                }
                Err(e)
            },
        }
    }

    /// Reset all stored calibration: NaN (meaning "uncalibrated") into the
    /// five calibration registers, then the defaults 25.0 and 0.019 into the
    /// temperature-compensation constant and coefficient.
    pub fn reset(&mut self) -> (r: Result<(), BusError>)
        requires
            old(self).wf(),
        ensures
            final(self).wf(),
            r is Ok ==> final(self).mem() == reset_mem(old(self).mem()) && final(self).log()
                == old(self).log() + reset_events(),
            r is Err ==> aborted_within(old(self).log(), final(self).log(), reset_events()),
    {
        let ghost l0 = self.log();
        let ghost e1 = write_register_events(EC_CALIBRATE_REFLOW_REGISTER, EC_NAN_BITS);
        let ghost e2 = write_register_events(EC_CALIBRATE_REFHIGH_REGISTER, EC_NAN_BITS);
        let ghost e3 = write_register_events(EC_CALIBRATE_READLOW_REGISTER, EC_NAN_BITS);
        let ghost e4 = write_register_events(EC_CALIBRATE_READHIGH_REGISTER, EC_NAN_BITS);
        let ghost e5 = write_register_events(EC_CALIBRATE_OFFSET_REGISTER, EC_NAN_BITS);
        let ghost e6 = write_register_events(
            EC_TEMP_COMPENSATION_REGISTER,
            EC_TEMP_CONSTANT_DEFAULT_BITS,
        );
        let ghost e7 = write_register_events(
            EC_TEMPCOEF_REGISTER,
            EC_TEMP_COEFFICIENT_DEFAULT_BITS,
        );
        match self._write_register(EC_CALIBRATE_REFLOW_REGISTER, EC_NAN_BITS) {
            Ok(()) => {},
            Err(e) => {
                proof {
                    lemma_abort_extend(l0, self.log(), e1, e2);
                    lemma_abort_extend(l0, self.log(), e1 + e2, e3);
                    lemma_abort_extend(l0, self.log(), e1 + e2 + e3, e4);
                    lemma_abort_extend(l0, self.log(), e1 + e2 + e3 + e4, e5);
                    lemma_abort_extend(l0, self.log(), e1 + e2 + e3 + e4 + e5, e6);
                    lemma_abort_extend(l0, self.log(), e1 + e2 + e3 + e4 + e5 + e6, e7);
                }
                return Err(e);
            },
        }
        match self._write_register(EC_CALIBRATE_REFHIGH_REGISTER, EC_NAN_BITS) {
            Ok(()) => {},
            Err(e) => {
                proof {
                    lemma_abort_after(l0, l0 + e1, self.log(), e1, e2);
                    lemma_abort_extend(l0, self.log(), e1 + e2, e3);
                    lemma_abort_extend(l0, self.log(), e1 + e2 + e3, e4);
                    lemma_abort_extend(l0, self.log(), e1 + e2 + e3 + e4, e5);
                    lemma_abort_extend(l0, self.log(), e1 + e2 + e3 + e4 + e5, e6);
                    lemma_abort_extend(l0, self.log(), e1 + e2 + e3 + e4 + e5 + e6, e7);
                }
                return Err(e);
            },
        }
        proof {
            assert(self.log() =~= l0 + (e1 + e2));
        }
        match self._write_register(EC_CALIBRATE_READLOW_REGISTER, EC_NAN_BITS) {
            Ok(()) => {},
            Err(e) => {
                proof {
                    lemma_abort_after(l0, l0 + (e1 + e2), self.log(), e1 + e2, e3);
                    lemma_abort_extend(l0, self.log(), e1 + e2 + e3, e4);
                    lemma_abort_extend(l0, self.log(), e1 + e2 + e3 + e4, e5);
                    lemma_abort_extend(l0, self.log(), e1 + e2 + e3 + e4 + e5, e6);
                    lemma_abort_extend(l0, self.log(), e1 + e2 + e3 + e4 + e5 + e6, e7);
                }
                return Err(e);
            },
        }
        proof {
            assert(self.log() =~= l0 + (e1 + e2 + e3));
        }
        match self._write_register(EC_CALIBRATE_READHIGH_REGISTER, EC_NAN_BITS) {
            Ok(()) => {},
            Err(e) => {
                proof {
                    lemma_abort_after(l0, l0 + (e1 + e2 + e3), self.log(), e1 + e2 + e3, e4);
                    lemma_abort_extend(l0, self.log(), e1 + e2 + e3 + e4, e5);
                    lemma_abort_extend(l0, self.log(), e1 + e2 + e3 + e4 + e5, e6);
                    lemma_abort_extend(l0, self.log(), e1 + e2 + e3 + e4 + e5 + e6, e7);
                }
                return Err(e);
            },
        }
        proof {
            assert(self.log() =~= l0 + (e1 + e2 + e3 + e4));
        }
        match self._write_register(EC_CALIBRATE_OFFSET_REGISTER, EC_NAN_BITS) {
            Ok(()) => {},
            Err(e) => {
                proof {
                    lemma_abort_after(
                        l0,
                        l0 + (e1 + e2 + e3 + e4),
                        self.log(),
                        e1 + e2 + e3 + e4,
                        e5,
                    );
                    lemma_abort_extend(l0, self.log(), e1 + e2 + e3 + e4 + e5, e6);
                    lemma_abort_extend(l0, self.log(), e1 + e2 + e3 + e4 + e5 + e6, e7);
                }
                return Err(e);
            },
        }
        proof {
            assert(self.log() =~= l0 + (e1 + e2 + e3 + e4 + e5));
        }
        match self._write_register(EC_TEMP_COMPENSATION_REGISTER, EC_TEMP_CONSTANT_DEFAULT_BITS) {
            Ok(()) => {},
            Err(e) => {
                proof {
                    lemma_abort_after(
                        l0,
                        l0 + (e1 + e2 + e3 + e4 + e5),
                        self.log(),
                        e1 + e2 + e3 + e4 + e5,
                        e6,
                    );
                    lemma_abort_extend(l0, self.log(), e1 + e2 + e3 + e4 + e5 + e6, e7);
                }
                return Err(e);
            },
        }
        proof {
            assert(self.log() =~= l0 + (e1 + e2 + e3 + e4 + e5 + e6));
        }
        match self.set_temp_coefficient(EC_TEMP_COEFFICIENT_DEFAULT_BITS) {
            Ok(()) => {},
            Err(e) => {
                proof {
                    lemma_abort_after(
                        l0,
                        l0 + (e1 + e2 + e3 + e4 + e5 + e6),
                        self.log(),
                        e1 + e2 + e3 + e4 + e5 + e6,
                        e7,
                    );
                }
                return Err(e);
            },
        }
        proof {
            assert(self.log() =~= l0 + reset_events());
            assert(self.mem() =~= reset_mem(old(self).mem()));
        }
        Ok(())
    }

    /// Move the device to a new bus address.  The address is encoded as an
    /// IEEE-754 value (exact for the whole `u16` range) and written to the
    /// solution register before the change-address task is dispatched.  After
    /// this the device no longer answers at the old address; reconnecting is
    /// the caller's business.
    pub fn set_i2c_address(&mut self, i2c_address: u16) -> (r: Result<(), BusError>)
        requires
            old(self).wf(),
        ensures
            final(self).wf(),
            r is Ok ==> final(self).mem() == tasked_mem(
                store_le(
                    old(self).mem(),
                    EC_SOLUTION_REGISTER as int,
                    float_bits_of_int(i2c_address),
                ),
                EC_I2C,
            ) && final(self).log() == old(self).log() + set_i2c_address_events(
                float_bits_of_int(i2c_address),
            ),
            r is Err ==> aborted_within(
                old(self).log(),
                final(self).log(),
                set_i2c_address_events(float_bits_of_int(i2c_address)),
            ),
    {
        let ghost l0 = self.log();
        let bits = float_bits_from_u16(i2c_address);
        let ghost a = write_register_events(EC_SOLUTION_REGISTER, bits);
        let ghost b = task_events(EC_I2C);
        match self._write_register(EC_SOLUTION_REGISTER, bits) {
            Ok(()) => {},
            Err(e) => {
                proof {
                    lemma_abort_extend(l0, self.log(), a, b);
                }
                return Err(e);
            },
        }
        match self.dispatch_task(EC_I2C) {
            Ok(()) => {},
            Err(e) => {
                proof {
                    lemma_abort_after(l0, l0 + a, self.log(), a, b);
                }
                return Err(e);
            },
        }
        proof {
            assert(self.log() =~= l0 + (a + b));
        }
        Ok(())
    }

    /// Write all four dual-point calibration values, each to its own
    /// register, in the fixed order ref-low, ref-high, read-low, read-high.
    /// There is no atomicity across the four writes: a failure part way
    /// leaves a mixed old/new calibration state on the device.
    pub fn set_dual_point_calibration(
        &mut self,
        ref_low_bits: u32,
        ref_high_bits: u32,
        read_low_bits: u32,
        read_high_bits: u32,
    ) -> (r: Result<(), BusError>)
        requires
            old(self).wf(),
        ensures
            final(self).wf(),
            r is Ok ==> final(self).mem() == dual_point_mem(
                old(self).mem(),
                ref_low_bits,
                ref_high_bits,
                read_low_bits,
                read_high_bits,
            ) && final(self).log() == old(self).log() + dual_point_events(
                ref_low_bits,
                ref_high_bits,
                read_low_bits,
                read_high_bits,
            ),
            r is Err ==> aborted_within(
                old(self).log(),
                final(self).log(),
                dual_point_events(ref_low_bits, ref_high_bits, read_low_bits, read_high_bits),
            ),
    {
        let ghost l0 = self.log();
        let ghost e1 = write_register_events(EC_CALIBRATE_REFLOW_REGISTER, ref_low_bits);
        let ghost e2 = write_register_events(EC_CALIBRATE_REFHIGH_REGISTER, ref_high_bits);
        let ghost e3 = write_register_events(EC_CALIBRATE_READLOW_REGISTER, read_low_bits);
        let ghost e4 = write_register_events(EC_CALIBRATE_READHIGH_REGISTER, read_high_bits);
        match self._write_register(EC_CALIBRATE_REFLOW_REGISTER, ref_low_bits) {
            Ok(()) => {},
            Err(e) => {
                proof {
                    lemma_abort_extend(l0, self.log(), e1, e2);
                    lemma_abort_extend(l0, self.log(), e1 + e2, e3);
                    lemma_abort_extend(l0, self.log(), e1 + e2 + e3, e4);
                }
                return Err(e);
            },
        }
        match self._write_register(EC_CALIBRATE_REFHIGH_REGISTER, ref_high_bits) {
            Ok(()) => {},
            Err(e) => {
                proof {
                    lemma_abort_after(l0, l0 + e1, self.log(), e1, e2);
                    lemma_abort_extend(l0, self.log(), e1 + e2, e3);
                    lemma_abort_extend(l0, self.log(), e1 + e2 + e3, e4);
                }
                return Err(e);
            },
        }
        proof {
            assert(self.log() =~= l0 + (e1 + e2));
        }
        match self._write_register(EC_CALIBRATE_READLOW_REGISTER, read_low_bits) {
            Ok(()) => {},
            Err(e) => {
                proof {
                    lemma_abort_after(l0, l0 + (e1 + e2), self.log(), e1 + e2, e3);
                    lemma_abort_extend(l0, self.log(), e1 + e2 + e3, e4);
                }
                return Err(e);
            },
        }
        proof {
            assert(self.log() =~= l0 + (e1 + e2 + e3));
        }
        match self._write_register(EC_CALIBRATE_READHIGH_REGISTER, read_high_bits) {
            Ok(()) => {},
            Err(e) => {
                proof {
                    lemma_abort_after(l0, l0 + (e1 + e2 + e3), self.log(), e1 + e2 + e3, e4);
                }
                return Err(e);
            },
        }
        proof {
            assert(self.log() =~= l0 + (e1 + e2 + e3 + e4));
            assert(self.mem() =~= dual_point_mem(
                old(self).mem(),
                ref_low_bits,
                ref_high_bits,
                read_low_bits,
                read_high_bits,
            ));
        }
        Ok(())
    }

    /// Read the single-point calibration offset (IEEE-754 bits; NaN when
    /// uncalibrated, which is a valid result, not an error).
    pub fn get_calibrate_offset(&mut self) -> (r: Result<u32, BusError>)
        requires
            old(self).wf(),
        ensures
            final(self).wf(),
            r is Ok ==> final(self).mem() == old(self).mem()
                && r->Ok_0 == load_le(old(self).mem(), EC_CALIBRATE_OFFSET_REGISTER as int)
                && final(self).log() == old(self).log() + read_register_events(
                EC_CALIBRATE_OFFSET_REGISTER,
            ),
            r is Err ==> aborted_within(
                old(self).log(),
                final(self).log(),
                read_register_events(EC_CALIBRATE_OFFSET_REGISTER),
            ),
    {
        self._read_register(EC_CALIBRATE_OFFSET_REGISTER)
    }

    /// Read the dual-point high reference value (IEEE-754 bits).
    pub fn get_calibrate_high_reference(&mut self) -> (r: Result<u32, BusError>)
        requires
            old(self).wf(),
        ensures
            final(self).wf(),
            r is Ok ==> final(self).mem() == old(self).mem()
                && r->Ok_0 == load_le(old(self).mem(), EC_CALIBRATE_REFHIGH_REGISTER as int)
                && final(self).log() == old(self).log() + read_register_events(
                EC_CALIBRATE_REFHIGH_REGISTER,
            ),
            r is Err ==> aborted_within(
                old(self).log(),
                final(self).log(),
                read_register_events(EC_CALIBRATE_REFHIGH_REGISTER),
            ),
    {
        self._read_register(EC_CALIBRATE_REFHIGH_REGISTER)
    }

    /// Read the dual-point high reading value (IEEE-754 bits).
    pub fn get_calibrate_high_reading(&mut self) -> (r: Result<u32, BusError>)
        requires
            old(self).wf(),
        ensures
            final(self).wf(),
            r is Ok ==> final(self).mem() == old(self).mem()
                && r->Ok_0 == load_le(old(self).mem(), EC_CALIBRATE_READHIGH_REGISTER as int)
                && final(self).log() == old(self).log() + read_register_events(
                EC_CALIBRATE_READHIGH_REGISTER,
            ),
            r is Err ==> aborted_within(
                old(self).log(),
                final(self).log(),
                read_register_events(EC_CALIBRATE_READHIGH_REGISTER),
            ),
    {
        self._read_register(EC_CALIBRATE_READHIGH_REGISTER)
    }

    /// Read the dual-point low reference value (IEEE-754 bits).
    pub fn get_calibrate_low_reference(&mut self) -> (r: Result<u32, BusError>)
        requires
            old(self).wf(),
        ensures
            final(self).wf(),
            r is Ok ==> final(self).mem() == old(self).mem()
                && r->Ok_0 == load_le(old(self).mem(), EC_CALIBRATE_REFLOW_REGISTER as int)
                && final(self).log() == old(self).log() + read_register_events(
                EC_CALIBRATE_REFLOW_REGISTER,
            ),
            r is Err ==> aborted_within(
                old(self).log(),
                final(self).log(),
                read_register_events(EC_CALIBRATE_REFLOW_REGISTER),
            ),
    {
        self._read_register(EC_CALIBRATE_REFLOW_REGISTER)
    }

    /// Read the dual-point low reading value (IEEE-754 bits).
    pub fn get_calibrate_low_reading(&mut self) -> (r: Result<u32, BusError>)
        requires
            old(self).wf(),
        ensures
            final(self).wf(),
            r is Ok ==> final(self).mem() == old(self).mem()
                && r->Ok_0 == load_le(old(self).mem(), EC_CALIBRATE_READLOW_REGISTER as int)
                && final(self).log() == old(self).log() + read_register_events(
                EC_CALIBRATE_READLOW_REGISTER,
            ),
            r is Err ==> aborted_within(
                old(self).log(),
                final(self).log(),
                read_register_events(EC_CALIBRATE_READLOW_REGISTER),
            ),
    {
        self._read_register(EC_CALIBRATE_READLOW_REGISTER)
    }
}

} // verus!
