//! The driver's laws: properties of the register-file model that hold for
//! every input, proved once and for all.
//!
//! Each law is stated over the same spec functions the operations' own
//! `ensures` clauses use, so composing an operation's contract with the law
//! here gives the end-to-end property over a perfect transport.

use vstd::prelude::*;

use crate::bus::EC_REGISTER_COUNT;
use crate::codec::{lemma_load_le_agrees, lemma_store_load, load_le, store_le};
use crate::probe::{
    comp_config_byte, config_bit, config_toggled, dual_point_mem, reset_mem, tasked_mem,
    write_eeprom_mem, EC_BUFFER_REGISTER, EC_CALIBRATE_OFFSET_REGISTER,
    EC_CALIBRATE_READHIGH_REGISTER, EC_CALIBRATE_READLOW_REGISTER, EC_CALIBRATE_REFHIGH_REGISTER,
    EC_CALIBRATE_REFLOW_REGISTER, EC_CONFIG_REGISTER, EC_NAN_BITS, EC_SOLUTION_REGISTER,
    EC_TEMPCOEF_REGISTER, EC_TEMP_COEFFICIENT_DEFAULT_BITS, EC_TEMP_COMPENSATION_CONFIG_BIT,
    EC_TEMP_COMPENSATION_REGISTER, EC_TEMP_CONSTANT_DEFAULT_BITS, EC_WRITE,
};

verus! {

/// Any 32-bit value written across a four-byte register and read back from
/// the same base address comes back bit for bit — NaN sign and payload bits
/// included, since the codec never interprets the value as a number.
/// Composed with `_write_register` (whose success leaves the register file
/// at `store_le`) and `_read_register` (whose result is `load_le`), this is
/// the round trip over a perfect transport.
pub proof fn lemma_float_register_round_trip(m: Seq<u8>, register: u8, bits: u32)
    requires
        m.len() == EC_REGISTER_COUNT as int,
        register as int + 4 <= EC_REGISTER_COUNT as int,
    ensures
        load_le(store_le(m, register as int, bits), register as int) == bits,
{
    lemma_store_load(m, register as int, bits);
}

/// After a calibration reset, whatever the register file held before, the
/// five calibration registers all read back NaN, the compensation constant
/// reads back 25.0 and the temperature coefficient 0.019.
pub proof fn lemma_reset_restores_defaults(m: Seq<u8>)
    requires
        m.len() == EC_REGISTER_COUNT as int,
    ensures
        load_le(reset_mem(m), EC_CALIBRATE_REFLOW_REGISTER as int) == EC_NAN_BITS,
        load_le(reset_mem(m), EC_CALIBRATE_REFHIGH_REGISTER as int) == EC_NAN_BITS,
        load_le(reset_mem(m), EC_CALIBRATE_READLOW_REGISTER as int) == EC_NAN_BITS,
        load_le(reset_mem(m), EC_CALIBRATE_READHIGH_REGISTER as int) == EC_NAN_BITS,
        load_le(reset_mem(m), EC_CALIBRATE_OFFSET_REGISTER as int) == EC_NAN_BITS,
        load_le(reset_mem(m), EC_TEMP_COMPENSATION_REGISTER as int)
            == EC_TEMP_CONSTANT_DEFAULT_BITS,
        load_le(reset_mem(m), EC_TEMPCOEF_REGISTER as int) == EC_TEMP_COEFFICIENT_DEFAULT_BITS,
{
    let m1 = store_le(m, EC_CALIBRATE_REFLOW_REGISTER as int, EC_NAN_BITS);
    let m2 = store_le(m1, EC_CALIBRATE_REFHIGH_REGISTER as int, EC_NAN_BITS);
    let m3 = store_le(m2, EC_CALIBRATE_READLOW_REGISTER as int, EC_NAN_BITS);
    let m4 = store_le(m3, EC_CALIBRATE_READHIGH_REGISTER as int, EC_NAN_BITS);
    let m5 = store_le(m4, EC_CALIBRATE_OFFSET_REGISTER as int, EC_NAN_BITS);
    let m6 = store_le(m5, EC_TEMP_COMPENSATION_REGISTER as int, EC_TEMP_CONSTANT_DEFAULT_BITS);
    lemma_store_load(m, EC_CALIBRATE_REFLOW_REGISTER as int, EC_NAN_BITS);
    lemma_store_load(m1, EC_CALIBRATE_REFHIGH_REGISTER as int, EC_NAN_BITS);
    lemma_store_load(m2, EC_CALIBRATE_READLOW_REGISTER as int, EC_NAN_BITS);
    lemma_store_load(m3, EC_CALIBRATE_READHIGH_REGISTER as int, EC_NAN_BITS);
    lemma_store_load(m4, EC_CALIBRATE_OFFSET_REGISTER as int, EC_NAN_BITS);
    lemma_store_load(m5, EC_TEMP_COMPENSATION_REGISTER as int, EC_TEMP_CONSTANT_DEFAULT_BITS);
    lemma_store_load(m6, EC_TEMPCOEF_REGISTER as int, EC_TEMP_COEFFICIENT_DEFAULT_BITS);
}

/// At the level of a single config byte: switching compensation off after
/// switching it on gives the same byte as switching it off directly, and the
/// toggle never changes any bit but the compensation bit.
pub proof fn lemma_compensation_bit_isolated(config: u8)
    ensures
        comp_config_byte(comp_config_byte(config, true), false) == comp_config_byte(
            config,
            false,
        ),
        comp_config_byte(comp_config_byte(config, false), true) == comp_config_byte(config, true),
        forall|i: u8|
            i < 8 && i != EC_TEMP_COMPENSATION_CONFIG_BIT ==> #[trigger] config_bit(
                comp_config_byte(config, true),
                i,
            ) == config_bit(config, i) && config_bit(comp_config_byte(config, false), i)
                == config_bit(config, i),
{
    assert(((config | (1u8 << 1)) & !(1u8 << 1)) == (config & !(1u8 << 1))) by (bit_vector);
    assert(((config & !(1u8 << 1)) | (1u8 << 1)) == (config | (1u8 << 1))) by (bit_vector);
    assert forall|i: u8| i < 8 && i != EC_TEMP_COMPENSATION_CONFIG_BIT implies #[trigger]
        config_bit(comp_config_byte(config, true), i) == config_bit(config, i) && config_bit(
        comp_config_byte(config, false),
        i,
    ) == config_bit(config, i) by {
        assert((((config | (1u8 << 1)) >> i) & 1) == ((config >> i) & 1)) by (bit_vector)
            requires
                i < 8,
                i != 1,
        ;
        assert((((config & !(1u8 << 1)) >> i) & 1) == ((config >> i) & 1)) by (bit_vector)
            requires
                i < 8,
                i != 1,
        ;
    }
}

/// Switching temperature compensation on and then off leaves every register
/// except the config byte exactly as it was, and within the config byte
/// every bit except the compensation bit keeps its pre-toggle value: the
/// read-modify-write discipline corrupts nothing.
pub proof fn lemma_compensation_round_trip(m: Seq<u8>)
    requires
        m.len() == EC_REGISTER_COUNT as int,
    ensures
        forall|i: int|
            0 <= i < m.len() && i != EC_CONFIG_REGISTER as int ==> #[trigger] config_toggled(
                config_toggled(m, true),
                false,
            )[i] == m[i],
        forall|i: u8|
            i < 8 && i != EC_TEMP_COMPENSATION_CONFIG_BIT ==> #[trigger] config_bit(
                config_toggled(config_toggled(m, true), false)[EC_CONFIG_REGISTER as int],
                i,
            ) == config_bit(m[EC_CONFIG_REGISTER as int], i),
{
    lemma_compensation_bit_isolated(m[EC_CONFIG_REGISTER as int]);
    assert(config_toggled(config_toggled(m, true), false)[EC_CONFIG_REGISTER as int]
        == comp_config_byte(comp_config_byte(m[EC_CONFIG_REGISTER as int], true), false));
    assert forall|i: u8| i < 8 && i != EC_TEMP_COMPENSATION_CONFIG_BIT implies #[trigger]
        config_bit(
        config_toggled(config_toggled(m, true), false)[EC_CONFIG_REGISTER as int],
        i,
    ) == config_bit(m[EC_CONFIG_REGISTER as int], i) by {
        assert(config_bit(comp_config_byte(m[EC_CONFIG_REGISTER as int], true), i) == config_bit(
            m[EC_CONFIG_REGISTER as int],
            i,
        ));
    }
}

/// The four dual-point calibration values land in four disjoint registers:
/// after `set_dual_point_calibration` each reads back exactly the value
/// written, in the model of a perfect transport.
pub proof fn lemma_dual_point_readback(
    m: Seq<u8>,
    ref_low_bits: u32,
    ref_high_bits: u32,
    read_low_bits: u32,
    read_high_bits: u32,
)
    requires
        m.len() == EC_REGISTER_COUNT as int,
    ensures
        load_le(
            dual_point_mem(m, ref_low_bits, ref_high_bits, read_low_bits, read_high_bits),
            EC_CALIBRATE_REFLOW_REGISTER as int,
        ) == ref_low_bits,
        load_le(
            dual_point_mem(m, ref_low_bits, ref_high_bits, read_low_bits, read_high_bits),
            EC_CALIBRATE_REFHIGH_REGISTER as int,
        ) == ref_high_bits,
        load_le(
            dual_point_mem(m, ref_low_bits, ref_high_bits, read_low_bits, read_high_bits),
            EC_CALIBRATE_READLOW_REGISTER as int,
        ) == read_low_bits,
        load_le(
            dual_point_mem(m, ref_low_bits, ref_high_bits, read_low_bits, read_high_bits),
            EC_CALIBRATE_READHIGH_REGISTER as int,
        ) == read_high_bits,
{
    let m1 = store_le(m, EC_CALIBRATE_REFLOW_REGISTER as int, ref_low_bits);
    let m2 = store_le(m1, EC_CALIBRATE_REFHIGH_REGISTER as int, ref_high_bits);
    let m3 = store_le(m2, EC_CALIBRATE_READLOW_REGISTER as int, read_low_bits);
    lemma_store_load(m, EC_CALIBRATE_REFLOW_REGISTER as int, ref_low_bits);
    lemma_store_load(m1, EC_CALIBRATE_REFHIGH_REGISTER as int, ref_high_bits);
    lemma_store_load(m2, EC_CALIBRATE_READLOW_REGISTER as int, read_low_bits);
    lemma_store_load(m3, EC_CALIBRATE_READHIGH_REGISTER as int, read_high_bits);
}

/// A written EEPROM cell reads back: `write_eeprom` leaves the buffer
/// register holding exactly the written value, so a `read_eeprom` over a
/// transport that round-trips the buffer register faithfully returns it.
pub proof fn lemma_eeprom_round_trip(m: Seq<u8>, address_bits: u32, value_bits: u32)
    requires
        m.len() == EC_REGISTER_COUNT as int,
    ensures
        load_le(write_eeprom_mem(m, address_bits, value_bits), EC_BUFFER_REGISTER as int)
            == value_bits,
{
    let m1 = store_le(m, EC_SOLUTION_REGISTER as int, address_bits);
    let m2 = store_le(m1, EC_BUFFER_REGISTER as int, value_bits);
    lemma_store_load(m1, EC_BUFFER_REGISTER as int, value_bits);
    let mw = tasked_mem(m2, EC_WRITE);
    let base = EC_BUFFER_REGISTER as int;
    assert(mw[base] == m2[base]);
    assert(mw[base + 1] == m2[base + 1]);
    assert(mw[base + 2] == m2[base + 2]);
    assert(mw[base + 3] == m2[base + 3]);
    lemma_load_le_agrees(mw, m2, base);
}

} // verus!
