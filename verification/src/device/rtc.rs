//! The CMOS real-time clock: a write to the index port selects a CMOS
//! register, a read of the data port serves the current UTC time in
//! BCD. The host clock is read through one trusted call; everything
//! derived from the reading is verified for every value it may take.

use vstd::prelude::*;
use chrono::{Datelike, Timelike};
use crate::device::{IoEffects, PortIoDevice, PortRange};

verus! {

pub const RTC_PORT_INDEX: u16 = 0x70;
pub const RTC_PORT_DATA: u16 = 0x71;

pub const RTC_SECONDS: u8 = 0x00;
pub const RTC_MINUTES: u8 = 0x02;
pub const RTC_HOURS: u8 = 0x04;
pub const RTC_DAY_OF_WEEK: u8 = 0x06;
pub const RTC_DAY_OF_MONTH: u8 = 0x07;
pub const RTC_MONTH: u8 = 0x08;
pub const RTC_YEAR: u8 = 0x09;
pub const RTC_CENTURY: u8 = 0x32;
pub const RTC_STATUS_B: u8 = 0x0b;
pub const RTC_STATUS_B_24H: u8 = 0x02;

/// One reading of the host's clock, as plain values.
#[derive(Debug, Clone, Copy, PartialEq, Eq, Structural)]
pub struct HostClock {
    pub second: u32,
    pub minute: u32,
    pub hour: u32,
    pub weekday: u32,
    pub day: u32,
    pub month: u32,
    pub year: i32,
}

/// The ranges chrono documents for each field (the year is unbounded).
pub open spec fn clock_wf(c: HostClock) -> bool {
    &&& c.second < 60
    &&& c.minute < 60
    &&& c.hour < 24
    &&& c.weekday < 7
    &&& 1 <= c.day <= 31
    &&& 1 <= c.month <= 12
}

/// Relies on `chrono::Utc::now` and the documented `Timelike` and
/// `Datelike` accessors: seconds and minutes in 0..=59, hours in
/// 0..=23, days-from-Sunday in 0..=6, day of month in 1..=31, month in
/// 1..=12. Nothing is assumed about the year.
#[verifier::external_body]
fn read_host_clock() -> (c: HostClock)
    ensures
        clock_wf(c),
{
    let now = chrono::Utc::now();
    HostClock {
        second: now.second(),
        minute: now.minute(),
        hour: now.hour(),
        weekday: now.weekday().num_days_from_sunday(),
        day: now.day(),
        month: now.month(),
        year: now.year(),
    }
}

/// Packed BCD of a two-digit value.
pub open spec fn bcd_spec(n: int) -> u8
    recommends
        0 <= n <= 99,
{
    ((n / 10) * 16 + n % 10) as u8
}

/// Binary to packed BCD.
pub fn bin_to_bcd(bin: u8) -> (r: u8)
    requires
        bin <= 99,
    ensures
        r == bcd_spec(bin as int),
{
    proof {
        assert(bin <= 99 ==> ((bin / 10) << 4u8) | (bin % 10) == (bin / 10) * 16 + bin % 10)
            by (bit_vector);
    }
    ((bin / 10) << 4u8) | (bin % 10)
}

/// The year clamped to the RTC's representable span.
pub open spec fn clamped_year(year: int) -> int {
    if year < 0 {
        0
    } else if year > 9999 {
        9999
    } else {
        year
    }
}

/// The byte a data-port read serves for CMOS index `idx` under clock
/// reading `c`; `None` when the index holds nothing.
pub open spec fn rtc_value_spec(c: HostClock, idx: u8) -> Option<u8> {
    if idx == RTC_SECONDS {
        Some(bcd_spec(c.second as int))
    } else if idx == RTC_MINUTES {
        Some(bcd_spec(c.minute as int))
    } else if idx == RTC_HOURS {
        Some(bcd_spec(c.hour as int))
    } else if idx == RTC_DAY_OF_WEEK {
        Some(bcd_spec(c.weekday + 1))
    } else if idx == RTC_DAY_OF_MONTH {
        Some(bcd_spec(c.day as int))
    } else if idx == RTC_MONTH {
        Some(bcd_spec(c.month as int))
    } else if idx == RTC_YEAR {
        Some(bcd_spec(clamped_year(c.year as int) % 100))
    } else if idx == RTC_CENTURY {
        Some(bcd_spec(clamped_year(c.year as int) / 100))
    } else if idx == RTC_STATUS_B {
        Some(RTC_STATUS_B_24H)
    } else {
        None
    }
}

/// The CMOS clock device: only the selected index is state.
#[derive(Debug, Clone, Copy, PartialEq, Eq, Structural)]
pub struct Rtc {
    pub cmos_index: u8,
}

/// A read: on the data port, the selected register's value computed
/// from some well-formed clock reading; elsewhere, nothing.
pub open spec fn rtc_read_rel(
    r0: Rtc,
    r1: Rtc,
    port: u16,
    b0: Seq<u8>,
    b1: Seq<u8>,
    fx: IoEffects,
) -> bool {
    &&& r1 == r0
    &&& crate::device::no_effects(fx)
    &&& if port == RTC_PORT_DATA && b0.len() > 0 {
        exists|c: HostClock|
            clock_wf(c) && b1 == (match #[trigger] rtc_value_spec(c, r0.cmos_index) {
                Some(value) => b0.update(0, value),
                None => b0,
            })
    } else {
        b1 == b0
    }
}

/// A write: on the index port, the low seven bits select the register;
/// elsewhere, nothing.
pub open spec fn rtc_write_rel(r0: Rtc, r1: Rtc, port: u16, b: Seq<u8>, fx: IoEffects) -> bool {
    &&& crate::device::no_effects(fx)
    &&& if port == RTC_PORT_INDEX && b.len() > 0 {
        r1 == (Rtc { cmos_index: b[0] & 0x7f })
    } else {
        r1 == r0
    }
}

/// The selected register's value for a given clock reading.
pub fn rtc_register_value(c: &HostClock, idx: u8) -> (r: Option<u8>)
    requires
        clock_wf(*c),
    ensures
        r == rtc_value_spec(*c, idx),
{
    if idx == RTC_SECONDS {
        Some(bin_to_bcd(c.second as u8))
    } else if idx == RTC_MINUTES {
        Some(bin_to_bcd(c.minute as u8))
    } else if idx == RTC_HOURS {
        Some(bin_to_bcd(c.hour as u8))
    } else if idx == RTC_DAY_OF_WEEK {
        Some(bin_to_bcd(c.weekday as u8 + 1))
    } else if idx == RTC_DAY_OF_MONTH {
        Some(bin_to_bcd(c.day as u8))
    } else if idx == RTC_MONTH {
        Some(bin_to_bcd(c.month as u8))
    } else if idx == RTC_YEAR {
        let y: i32 = if c.year < 0 {
            0
        } else if c.year > 9999 {
            9999
        } else {
            c.year
        };
        Some(bin_to_bcd((y % 100) as u8))
    } else if idx == RTC_CENTURY {
        let y: i32 = if c.year < 0 {
            0
        } else if c.year > 9999 {
            9999
        } else {
            c.year
        };
        Some(bin_to_bcd((y / 100) as u8))
    } else if idx == RTC_STATUS_B {
        Some(RTC_STATUS_B_24H)
    } else {
        None
    }
}

impl Rtc {
    pub fn new() -> (r: Rtc)
        ensures
            r.cmos_index == 0,
    {
        Rtc { cmos_index: 0 }
    }

    pub fn read(&mut self, port: u16, data: &mut Vec<u8>) -> (fx: IoEffects)
        ensures
            rtc_read_rel(*old(self), *final(self), port, old(data)@, final(data)@, fx),
            *final(self) == *old(self),
            final(data)@.len() == old(data)@.len(),
    {
        if port == RTC_PORT_DATA && data.len() > 0 {
            let clock = read_host_clock();
            match rtc_register_value(&clock, self.cmos_index) {
                Some(value) => {
                    data.set(0, value);
                },
                None => {},
            }
            proof {
                assert(clock_wf(clock) && data@ == (match rtc_value_spec(
                    clock,
                    old(self).cmos_index,
                ) {
                    Some(value) => old(data)@.update(0, value),
                    None => old(data)@,
                }));
            }
        }
        IoEffects::none()
    }

    pub fn write(&mut self, port: u16, data: &[u8]) -> (fx: IoEffects)
        ensures
            rtc_write_rel(*old(self), *final(self), port, data@, fx),
    {
        if port == RTC_PORT_INDEX && data.len() > 0 {
            self.cmos_index = crate::bytes::get_u8(data, 0) & 0x7f;
        }
        IoEffects::none()
    }
}

impl PortIoDevice for Rtc {
    open spec fn range_spec(&self) -> PortRange {
        PortRange { base: 0x70, len: 2 }
    }

    fn port_range(&self) -> (r: PortRange) {
        PortRange { base: 0x70, len: 2 }
    }

    fn read(&mut self, port: u16, data: &mut Vec<u8>) -> (fx: IoEffects) {
        self.read(port, data)
    }

    fn write(&mut self, port: u16, data: &[u8]) -> (fx: IoEffects) {
        self.write(port, data)
    }
}

} // verus!
