//! Single-wire thermometer driver.
//!
//! The kernel surfaces each discovered single-wire device as a directory
//! named `<family>-<serial>` under one root, and the thermometer's reading
//! as a small text file in that directory whose second line carries a
//! `t=<millidegrees>` token. Construction scans the entry names once for
//! the thermometer's family code and keeps the first match; every read
//! parses a fresh copy of the status file. Listing the directory and
//! reading the file happen outside this crate; the selection among the
//! names and the parse of the bytes are verified here for every input.

use vstd::prelude::*;

use crate::measurement::Measurement;
use crate::parse;

verus! {

/// Why a driver could not be built or a reading could not be produced.
#[derive(Clone, Copy, Debug, PartialEq, Eq, Structural)]
pub enum SensorError {
    /// No directory entry carries the expected family code; construction
    /// fails and no driver instance exists.
    NotFound,
    /// The status file was missing, shorter than two lines, without the
    /// `t=` token, or its value was not a well-formed 32-bit number. The
    /// driver stays usable; the next read is a fresh attempt.
    ReadFailed,
}

/// The family code of the thermometer's device class, the decimal prefix
/// of its directory entry.
pub const FAMILY_CODE: u32 = 28;

/// Name of the status file inside the device directory.
pub fn status_file_name() -> (r: &'static str)
    ensures
        r@ == "w1_slave"@,
{
    "w1_slave"
}

/// The root directory whose entries are scanned: the kernel's single-wire
/// device directory on target, a local fixture directory anywhere else.
pub fn scan_root(on_target: bool) -> (r: &'static str)
    ensures
        on_target ==> r@ == "/sys/bus/w1/devices/"@,
        !on_target ==> r@ == "./test/debug_path/"@,
{
    if on_target {
        "/sys/bus/w1/devices/"
    } else {
        "./test/debug_path/"
    }
}

/// The entry name carries the thermometer's family code: its decimal
/// prefix, read as a 32-bit unsigned number, equals `family`.
pub open spec fn name_matches(name: Seq<u8>, family: int) -> bool {
    parse::prefix_value(name, 0xFFFF_FFFF) == Some(family)
}

/// No entry before index `i` carries the family code.
pub open spec fn no_match_before(entries: Seq<Vec<u8>>, family: int, i: int) -> bool {
    forall|j: int| 0 <= j < i ==> !name_matches((#[trigger] entries[j])@, family)
}

/// The single-wire thermometer driver: the directory entry resolved for it
/// at construction, immutable afterwards.
#[derive(Clone, Debug, PartialEq, Eq)]
pub struct DS18B20 {
    /// Name of the device directory the driver reads from.
    pub sensor_path: Vec<u8>,
}

/// Select the first directory entry whose decimal prefix equals `prefix`.
/// Entries without a `-`, with a non-numeric or out-of-range prefix, or
/// with a different prefix are passed over; the scan makes no use of any
/// order beyond first-match-wins, and more than one match may exist.
pub fn find_dir_with_prefix(entries: &Vec<Vec<u8>>, prefix: u32) -> (r: Option<usize>)
    ensures
        (match r {
            Some(i) => i < entries@.len() && name_matches(entries@[i as int]@, prefix as int)
                && no_match_before(entries@, prefix as int, i as int),
            None => no_match_before(entries@, prefix as int, entries@.len() as int),
        }),
{
    let mut i: usize = 0;
    while i < entries.len()
        invariant
            i <= entries@.len(),
            no_match_before(entries@, prefix as int, i as int),
        decreases entries@.len() - i,
    {
        let e = &entries[i];
        match parse::parse_name_prefix(e, 0xFFFF_FFFF) {
            Some(n) => {
                if n == prefix as u64 {
                    return Some(i);
                }
            },
            None => {},
        }
        i = i + 1;
    }
    None
}

impl DS18B20 {
    /// Construct the driver from the names of the root directory's
    /// subdirectories: keep the first entry carrying the thermometer's
    /// family code, or fail with `NotFound` when no entry does (an
    /// unreadable root is an empty list of entries).
    pub fn init(entries: &Vec<Vec<u8>>) -> (r: Result<DS18B20, SensorError>)
        ensures
            (match r {
                Ok(d) => exists|i: int|
                    0 <= i < entries@.len() && name_matches(
                        (#[trigger] entries@[i])@,
                        FAMILY_CODE as int,
                    ) && no_match_before(entries@, FAMILY_CODE as int, i) && d.sensor_path@
                        == entries@[i]@,
                Err(e) => e == SensorError::NotFound && no_match_before(
                    entries@,
                    FAMILY_CODE as int,
                    entries@.len() as int,
                ),
            }),
    {
        match find_dir_with_prefix(entries, FAMILY_CODE) {
            Some(i) => {
                let path = entries[i].clone();
                proof {
                    assert(path@ =~= entries@[i as int]@);
                }
                Ok(DS18B20 { sensor_path: path })
            },
            None => Err(SensorError::NotFound),
        }
    }

    /// One temperature reading from a fresh copy of the status file's
    /// bytes, `None` when the file could not be opened. The reading is the
    /// file's millidegree value over 1000; any malformed content is a
    /// recoverable `ReadFailed`.
    pub fn read_temperture(&self, content: Option<&Vec<u8>>) -> (r: Result<
        Measurement,
        SensorError,
    >)
        ensures
            temperature_read_outcome(content_view(content), r),
            (r matches Ok(m) ==> m.wf()),
    {
        let v = match content {
            None => {
                return Err(SensorError::ReadFailed);
            },
            Some(v) => v,
        };
        let ghost c = v@;

        // The first line is the device's CRC/status line; only where it
        // ends matters.
        let first_end = match parse::find_byte(v, 0, v.len(), 10) {
            None => {
                proof {
                    assert(v@.subrange(0, v@.len() as int) =~= c);
                }
                return Err(SensorError::ReadFailed);
            },
            Some(k) => k,
        };
        proof {
            assert(v@.subrange(0, v@.len() as int) =~= c);
        }
        if first_end + 1 >= v.len() {
            return Err(SensorError::ReadFailed);
        }
        let line_start = first_end + 1;
        let ghost rest = c.subrange(line_start as int, c.len() as int);

        // The second line runs to the next line break (less a carriage
        // return just before it) or to the end of the file.
        let line_break = match parse::find_byte(v, line_start, v.len(), 10) {
            None => v.len(),
            Some(j) => j,
        };
        proof {
            assert(v@.subrange(line_start as int, v@.len() as int) =~= rest);
            if line_break < v.len() {
                assert(rest.subrange(0, line_break - line_start) =~= v@.subrange(
                    line_start as int,
                    line_break as int,
                ));
            }
        }
        let line_end = if line_break < v.len() && line_break > line_start && v[line_break - 1]
            == 13 {
            line_break - 1
        } else {
            line_break
        };
        let ghost line = c.subrange(line_start as int, line_end as int);
        proof {
            assert(second_line(c) == Some(line)) by {
                if line_break < v@.len() {
                    assert(strip_cr(rest.subrange(0, line_break - line_start)) =~= line);
                } else {
                    assert(rest =~= line);
                }
            }
        }

        // The reading follows the first `t=` token on the second line.
        let marker = match parse::find_pair(v, line_start, line_end, 116, 61) {
            None => {
                return Err(SensorError::ReadFailed);
            },
            Some(j) => j,
        };
        let milli = match parse::parse_signed(v, marker + 2, line_end) {
            None => {
                proof {
                    assert(line.skip(marker - line_start + 2) =~= c.subrange(
                        marker as int + 2,
                        line_end as int,
                    ));
                }
                return Err(SensorError::ReadFailed);
            },
            Some(m) => m,
        };
        proof {
            assert(line.skip(marker - line_start + 2) =~= c.subrange(
                marker as int + 2,
                line_end as int,
            ));
        }
        Ok(Measurement { num: milli, den: 1000 })
    }
}

/// A line-break-terminated line as the driver reads it: a carriage return
/// just before the break does not belong to the text.
pub open spec fn strip_cr(line: Seq<u8>) -> Seq<u8> {
    if line.len() > 0 && line.last() == 13 {
        line.drop_last()
    } else {
        line
    }
}

/// The second text line of the file `content`, if the file has one: the
/// bytes between the first line break and the next (less a carriage return
/// just before that next break), or everything after the first break when
/// no second break exists.
pub open spec fn second_line(content: Seq<u8>) -> Option<Seq<u8>> {
    match parse::find_index(content, 10, 0) {
        None => None,
        Some(k) => if k + 1 >= content.len() {
            None
        } else {
            let rest = content.subrange(k + 1, content.len() as int);
            match parse::find_index(rest, 10, 0) {
                None => Some(rest),
                Some(j) => Some(strip_cr(rest.subrange(0, j))),
            }
        },
    }
}

/// The millidegree value the file `content` carries: the signed decimal
/// number after the first `t=` token of the second line, if the file has a
/// second line with such a token and a well-formed 32-bit value after it.
pub open spec fn millidegrees(content: Seq<u8>) -> Option<int> {
    match second_line(content) {
        None => None,
        Some(line) => match parse::find_marker(line, 116, 61, 0) {
            None => None,
            Some(j) => parse::signed_to_value(line.skip(j + 2)),
        },
    }
}

/// The file content as the contracts see it: `None` when it could not be
/// read at all.
pub open spec fn content_view(content: Option<&Vec<u8>>) -> Option<Seq<u8>> {
    match content {
        None => None,
        Some(v) => Some(v@),
    }
}

/// Everything a read may do, as a relation between the status file's bytes
/// and the outcome: an unreadable file or malformed content is a
/// recoverable failure, and a well-formed file yields its millidegree
/// value over 1000, in degrees Celsius.
pub open spec fn temperature_read_outcome(
    content: Option<Seq<u8>>,
    r: Result<Measurement, SensorError>,
) -> bool {
    match content {
        None => r == Err::<Measurement, SensorError>(SensorError::ReadFailed),
        Some(c) => match millidegrees(c) {
            None => r == Err::<Measurement, SensorError>(SensorError::ReadFailed),
            Some(m) => r == Ok::<Measurement, SensorError>(
                Measurement { num: m as i64, den: 1000 },
            ),
        },
    }
}

} // verus!
