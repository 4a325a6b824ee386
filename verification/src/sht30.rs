//! Humidity/temperature sensor driver (two-wire bus).
//!
//! Each reading is one request/settle/read cycle on the bus: write the
//! one-byte measurement-trigger command, wait the settling time, read a
//! 6-byte register block, wait again. The bus transactions and the waits
//! happen outside this crate; the driver here makes the decisions and is
//! verified: whether the bus is used at all, and what the raw block means.
//! Bytes 0-1 of the block are the temperature word, bytes 3-4 the humidity
//! word, both big-endian; the manufacturer transfer functions are linear
//! over the full 16-bit range.
//!
//! Off target the driver holds no bus and serves fixed simulated readings;
//! a read then never fails and touches no hardware.

use vstd::prelude::*;

use crate::measurement::Measurement;

verus! {

/// A transaction-level fault: the caller had no bus, or a bus transfer
/// failed. Any such fault is recoverable; the next poll tick retries.
#[derive(Clone, Copy, Debug, PartialEq, Eq, Structural)]
pub enum SensorError {
    Bus,
}

/// The humidity/temperature sensor driver. Off target it holds no bus
/// handle and serves simulated readings.
pub struct SHT30 {
    /// Whether the driver talks to the real bus; off target every read is
    /// simulated.
    pub on_target: bool,
}

/// The sensor's fixed bus address.
pub const ADDR: u16 = 0x44;

/// Command register for triggering a measurement.
pub const MODE: u8 = 0x2C;

/// Trigger command payload: high-repeatability measurement.
pub const HIGH: u8 = 0x06;

/// Register the raw block is read from.
pub const READ: u8 = 0x00;

/// Settling time between trigger and read, and after the read, in
/// milliseconds; each reading blocks twice for this long.
pub const WAIT_TIME_MS: u64 = 200;

/// The fixed simulated temperature, 12.3 degrees Celsius.
pub open spec fn sim_temperature() -> Measurement {
    Measurement { num: 123, den: 10 }
}

/// The fixed simulated relative humidity, 45.6 percent.
pub open spec fn sim_humidity() -> Measurement {
    Measurement { num: 456, den: 10 }
}

/// The big-endian temperature word of a raw register block: bytes 0-1.
pub open spec fn raw_temperature(reg: Seq<u8>) -> int
    recommends
        reg.len() == 6,
{
    reg[0] * 256 + reg[1]
}

/// The big-endian humidity word of a raw register block: bytes 3-4.
pub open spec fn raw_humidity(reg: Seq<u8>) -> int
    recommends
        reg.len() == 6,
{
    reg[3] * 256 + reg[4]
}

/// The manufacturer transfer function for temperature: `raw` out of the
/// 16-bit range maps linearly onto -45..130 degrees Celsius, so the degrees
/// are `(175 * raw - 45 * 65535) / 65535`.
pub open spec fn temperature_from_raw(raw: int) -> Measurement
    recommends
        0 <= raw <= 65535,
{
    Measurement { num: (175 * raw - 2949075) as i64, den: 65535 }
}

/// The manufacturer transfer function for humidity: `raw` out of the
/// 16-bit range maps linearly onto 0..100 percent, so the percent value is
/// `100 * raw / 65535`.
pub open spec fn humidity_from_raw(raw: int) -> Measurement
    recommends
        0 <= raw <= 65535,
{
    Measurement { num: (100 * raw) as i64, den: 65535 }
}

/// Everything a temperature read may do, as a relation between the driver,
/// the raw block the bus produced (`None`: no bus or a failed transfer) and
/// the outcome. Off target the outcome is the simulated constant whatever
/// the bus did; on target a missing block is a bus fault and a present
/// block decodes through the transfer function.
pub open spec fn temperature_read_outcome(
    s: SHT30,
    reg: Option<Seq<u8>>,
    r: Result<Measurement, SensorError>,
) -> bool {
    if !s.on_target {
        r == Ok::<Measurement, SensorError>(sim_temperature())
    } else {
        match reg {
            None => r == Err::<Measurement, SensorError>(SensorError::Bus),
            Some(b) => r == Ok::<Measurement, SensorError>(temperature_from_raw(raw_temperature(b))),
        }
    }
}

/// Everything a humidity read may do; see `temperature_read_outcome`.
pub open spec fn humidity_read_outcome(
    s: SHT30,
    reg: Option<Seq<u8>>,
    r: Result<Measurement, SensorError>,
) -> bool {
    if !s.on_target {
        r == Ok::<Measurement, SensorError>(sim_humidity())
    } else {
        match reg {
            None => r == Err::<Measurement, SensorError>(SensorError::Bus),
            Some(b) => r == Ok::<Measurement, SensorError>(humidity_from_raw(raw_humidity(b))),
        }
    }
}

/// The raw block as the contracts see it.
pub open spec fn reg_view(reg: Option<&[u8; 6]>) -> Option<Seq<u8>> {
    match reg {
        None => None,
        Some(b) => Some(b@),
    }
}

/// Decode a raw 16-bit temperature word into degrees Celsius.
pub fn decode_temperature(raw: u16) -> (m: Measurement)
    ensures
        m == temperature_from_raw(raw as int),
        m.wf(),
{
    Measurement { num: 175 * (raw as i64) - 2949075, den: 65535 }
}

/// Decode a raw 16-bit humidity word into percent relative humidity.
pub fn decode_humidity(raw: u16) -> (m: Measurement)
    ensures
        m == humidity_from_raw(raw as int),
        m.wf(),
{
    Measurement { num: 100 * (raw as i64), den: 65535 }
}

impl SHT30 {
    /// Construct the driver once at startup. Off target it holds no bus;
    /// on target the caller owns the bus handle, and construction itself
    /// cannot fail.
    pub fn init(on_target: bool) -> (s: SHT30)
        ensures
            s.on_target == on_target,
    {
        SHT30 { on_target }
    }

    /// One temperature reading. `reg` is the raw register block a completed
    /// trigger/settle/read cycle produced, `None` when the bus was missing
    /// or a transfer failed; off target the block is ignored, no bus is
    /// touched, and the fixed simulated reading comes back.
    pub fn read_temperture(&self, reg: Option<&[u8; 6]>) -> (r: Result<Measurement, SensorError>)
        ensures
            temperature_read_outcome(*self, reg_view(reg), r),
            (r matches Ok(m) ==> m.wf()),
    {
        if !self.on_target {
            return Ok(Measurement { num: 123, den: 10 });
        }
        match reg {
            None => Err(SensorError::Bus),
            Some(b) => {
                let raw: u16 = (b[0] as u16) * 256 + (b[1] as u16);
                Ok(decode_temperature(raw))
            },
        }
    }

    /// One humidity reading, a fresh trigger/settle/read cycle of its own:
    /// back-to-back reads of the two quantities cost two bus cycles, as the
    /// device requires. The block is handled as in `read_temperture`, but
    /// the humidity word is taken from bytes 3-4.
    pub fn read_humidity(&self, reg: Option<&[u8; 6]>) -> (r: Result<Measurement, SensorError>)
        ensures
            humidity_read_outcome(*self, reg_view(reg), r),
            (r matches Ok(m) ==> m.wf()),
    {
        if !self.on_target {
            return Ok(Measurement { num: 456, den: 10 });
        }
        match reg {
            None => Err(SensorError::Bus),
            Some(b) => {
                let raw: u16 = (b[3] as u16) * 256 + (b[4] as u16);
                Ok(decode_humidity(raw))
            },
        }
    }
}

/// The temperature transfer function is monotonically increasing: of two
/// raw register words the larger decodes to the strictly warmer reading.
pub proof fn lemma_decode_temperature_monotonic(r1: int, r2: int)
    requires
        0 <= r1 < r2 <= 65535,
    ensures
        temperature_from_raw(r1).lt(temperature_from_raw(r2)),
{
    let n1 = 175 * r1 - 2949075;
    let n2 = 175 * r2 - 2949075;
    assert(n1 < n2);
    assert(n1 * 65535 < n2 * 65535) by (nonlinear_arith)
        requires
            n1 < n2,
    ;
}

/// The transfer functions hit their endpoints exactly: a zero raw word
/// decodes to exactly -45 degrees Celsius and exactly 0 percent, a
/// full-scale word to exactly 130 degrees and exactly 100 percent.
pub proof fn lemma_decode_endpoints()
    ensures
        temperature_from_raw(0).is_integer(-45),
        temperature_from_raw(65535).is_integer(130),
        humidity_from_raw(0).is_integer(0),
        humidity_from_raw(65535).is_integer(100),
{
}

/// Off target both reads are pure constants: whatever raw blocks were
/// passed in and in whatever order any number of calls were made, every
/// simulated temperature read returns the one fixed reading and every
/// simulated humidity read the other, so any two outcomes of the same kind
/// are identical.
pub proof fn lemma_simulated_reads_identical(
    s: SHT30,
    reg1: Option<Seq<u8>>,
    reg2: Option<Seq<u8>>,
    t1: Result<Measurement, SensorError>,
    t2: Result<Measurement, SensorError>,
    h1: Result<Measurement, SensorError>,
    h2: Result<Measurement, SensorError>,
)
    requires
        !s.on_target,
        temperature_read_outcome(s, reg1, t1),
        temperature_read_outcome(s, reg2, t2),
        humidity_read_outcome(s, reg1, h1),
        humidity_read_outcome(s, reg2, h2),
    ensures
        t1 == t2,
        h1 == h2,
        t1 == Ok::<Measurement, SensorError>(sim_temperature()),
        h1 == Ok::<Measurement, SensorError>(sim_humidity()),
{
}

} // verus!
