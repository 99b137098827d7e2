//! Decoding of the CMOS real-time clock's registers.
use vstd::prelude::*;
use crate::port::Port;

verus! {

pub const REG_SECOND: u8 = 0x00;

pub const REG_MINUTE: u8 = 0x02;

pub const REG_HOUR: u8 = 0x04;

pub const REG_DAY: u8 = 0x07;

pub const REG_MONTH: u8 = 0x08;

pub const REG_YEAR: u8 = 0x09;

/// Bit of status register B that says the registers hold binary values
/// rather than binary-coded decimal.
pub const BINARY_MODE: u8 = 0x04;

/// The value of a two-digit binary-coded decimal byte.
pub open spec fn bcd_value(v: u8) -> u8 {
    (v % 16 + (v / 16) * 10) as u8
}

/// The value of a BCD hour byte whose bit 7 is the 12-hour clock's PM flag:
/// the two digits below it are decoded and the flag is kept.
pub open spec fn bcd_hour_value(v: u8) -> u8 {
    ((v % 16 + ((v % 128) / 16) * 10) + (if v >= 128 {
        128int
    } else {
        0int
    })) as u8
}

/// Decodes a BCD byte.
pub fn bcd_to_binary(v: u8) -> (r: u8)
    ensures
        r == bcd_value(v),
{
    assert((v & 0x0F) == v % 16) by (bit_vector);
    (v & 0x0F) + (v / 16) * 10
}

/// Decodes a BCD hour byte, keeping the PM flag.
pub fn bcd_hour_to_binary(v: u8) -> (r: u8)
    ensures
        r == bcd_hour_value(v),
{
    let low = v & 0x0F;
    let high = (v & 0x70) / 16;
    assert(low == v % 16 && high == (v % 128) / 16 && low < 16 && high < 8) by (bit_vector)
        requires
            low == v & 0x0F,
            high == (v & 0x70) / 16,
    ;
    let sum: u8 = low + high * 10;
    let pm = v & 0x80;
    assert(pm as int == (if v >= 128 {
        128int
    } else {
        0int
    }) && (sum | pm) as int == sum as int + pm as int) by (bit_vector)
        requires
            pm == v & 0x80,
            sum < 128,
    ;
    sum | pm
}

/// The two ports of the CMOS: register select and data.
pub struct Cmos {
    pub register_select: Port,
    pub data: Port,
}

/// The value a register holds in the clock's current mode: as read in
/// binary mode; otherwise decoded from BCD (the hour register with its PM
/// flag kept).
pub open spec fn register_value(reg: u8, val: u8, reg_b: u8) -> u8 {
    if reg_b & BINARY_MODE != 0 {
        val
    } else if reg == REG_HOUR {
        bcd_hour_value(val)
    } else {
        bcd_value(val)
    }
}

impl Cmos {
    pub fn new(register_select: Port, data: Port) -> (r: Self)
        ensures
            r.register_select == register_select,
            r.data == data,
    {
        Cmos { register_select, data }
    }

    /// Decodes the raw value `val` of register `reg` given status
    /// register B.
    pub fn decode_register(reg: u8, val: u8, reg_b: u8) -> (r: u8)
        ensures
            r == register_value(reg, val, reg_b),
    {
        if (reg_b & BINARY_MODE) == 0 && reg != REG_HOUR {
            bcd_to_binary(val)
        } else if (reg_b & BINARY_MODE) == 0 && reg == REG_HOUR {
            bcd_hour_to_binary(val)
        } else {
            val
        }
    }

    /// Whether status register A says an update is in progress (bit 7),
    /// during which the time registers must not be read.
    pub fn update_in_progress(status_a: u8) -> (r: bool)
        ensures
            r == (status_a >= 0x80),
    {
        assert((status_a & 0x80 > 0) == (status_a >= 0x80)) by (bit_vector);
        status_a & 0x80 > 0
    }

    /// One poll of a sleep: `secs` seconds are still to wait and the
    /// seconds register read `last_second` before and `second` now. A
    /// change of the register counts one second off.
    pub fn sleep_step(secs: usize, last_second: u8, second: u8) -> (r: (usize, u8))
        requires
            secs > 0,
        ensures
            last_second != second ==> r.0 == secs - 1 && r.1 == second,
            last_second == second ==> r == (secs, last_second),
    {
        if last_second != second {
            (secs - 1, second)
        } else {
            (secs, last_second)
        }
    }
}

/// A reading of the clock.
#[derive(PartialEq, Eq, Structural, Clone, Copy, Debug)]
pub struct Rtc {
    pub second: u8,
    pub minute: u8,
    pub hour: u8,
    pub day: u8,
    pub month: u8,
    pub year: u8,
}

impl Rtc {
    /// The reading whose raw register values are `raw`, decoded for the
    /// mode that status register B gives.
    pub fn decode(raw: &Rtc, reg_b: u8) -> (r: Rtc)
        ensures
            r == (Rtc {
                second: register_value(REG_SECOND, raw.second, reg_b),
                minute: register_value(REG_MINUTE, raw.minute, reg_b),
                hour: register_value(REG_HOUR, raw.hour, reg_b),
                day: register_value(REG_DAY, raw.day, reg_b),
                month: register_value(REG_MONTH, raw.month, reg_b),
                year: register_value(REG_YEAR, raw.year, reg_b),
            }),
    {
        Rtc {
            second: Cmos::decode_register(REG_SECOND, raw.second, reg_b),
            minute: Cmos::decode_register(REG_MINUTE, raw.minute, reg_b),
            hour: Cmos::decode_register(REG_HOUR, raw.hour, reg_b),
            day: Cmos::decode_register(REG_DAY, raw.day, reg_b),
            month: Cmos::decode_register(REG_MONTH, raw.month, reg_b),
            year: Cmos::decode_register(REG_YEAR, raw.year, reg_b),
        }
    }
}

} // verus!
