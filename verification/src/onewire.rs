//! Low-level view of the single-wire bus: a device handle bound to a bus
//! address, resolved by scanning the kernel's device directory entries.
//!
//! Entry names have the shape `<prefix>-<serial>`; here the whole decimal
//! prefix is read as the device address. As in the thermometer driver, the
//! directory listing itself happens outside this crate and the selection
//! among the names is verified. Bus transfers on this handle are not
//! implemented; the thermometer driver reads through the kernel's status
//! file instead.

use vstd::prelude::*;

use crate::parse;

verus! {

/// The decimal prefix of the entry name, read as an unsigned 64-bit
/// number, equals `address`.
pub open spec fn name_has_address(name: Seq<u8>, address: int) -> bool {
    parse::prefix_value(name, 0xFFFF_FFFF_FFFF_FFFF) == Some(address)
}

/// The entry name has a decimal prefix at all.
pub open spec fn name_scannable(name: Seq<u8>) -> bool {
    parse::prefix_value(name, 0xFFFF_FFFF_FFFF_FFFF) is Some
}

/// No entry before index `i` has a decimal prefix.
pub open spec fn none_scannable_before(entries: Seq<Vec<u8>>, i: int) -> bool {
    forall|j: int| 0 <= j < i ==> !name_scannable((#[trigger] entries[j])@)
}

/// A handle on one single-wire device: the bus address it was asked for,
/// and the directory entry found to carry that address, if any.
pub struct OneWire {
    /// The bus address this handle was bound to.
    pub address: u64,
    /// The last directory entry whose prefix equals the address, or `None`
    /// when no entry does.
    pub target_dir: Option<Vec<u8>>,
}

impl OneWire {
    /// Bind a handle to `address` by scanning the directory entry names:
    /// every entry whose decimal prefix equals the address overwrites the
    /// remembered one, so the last match in scan order wins; a handle
    /// without a match still exists, with no directory.
    pub fn new(address: u64, entries: &Vec<Vec<u8>>) -> (w: OneWire)
        ensures
            w.address == address,
            (match w.target_dir {
                Some(d) => exists|i: int|
                    0 <= i < entries@.len() && name_has_address(
                        (#[trigger] entries@[i])@,
                        address as int,
                    ) && d@ == entries@[i]@ && (forall|j: int|
                        i < j < entries@.len() ==> !name_has_address(
                            (#[trigger] entries@[j])@,
                            address as int,
                        )),
                None => forall|j: int|
                    0 <= j < entries@.len() ==> !name_has_address(
                        (#[trigger] entries@[j])@,
                        address as int,
                    ),
            }),
    {
        let mut target_dir: Option<Vec<u8>> = None;
        let mut i: usize = 0;
        while i < entries.len()
            invariant
                i <= entries@.len(),
                (match target_dir {
                    Some(d) => exists|m: int|
                        0 <= m < i && name_has_address((#[trigger] entries@[m])@, address as int)
                            && d@ == entries@[m]@ && (forall|j: int|
                            m < j < i ==> !name_has_address(
                                (#[trigger] entries@[j])@,
                                address as int,
                            )),
                    None => forall|j: int|
                        0 <= j < i ==> !name_has_address((#[trigger] entries@[j])@, address as int),
                }),
            decreases entries@.len() - i,
        {
            let e = &entries[i];
            match parse::parse_name_prefix(e, 0xFFFF_FFFF_FFFF_FFFF) {
                Some(n) => {
                    if n == address {
                        let d = e.clone();
                        proof {
                            assert(d@ =~= entries@[i as int]@);
                        }
                        target_dir = Some(d);
                        proof {
                            assert(name_has_address(entries@[i as int]@, address as int));
                        }
                    }
                },
                None => {},
            }
            i = i + 1;
        }
        OneWire { address, target_dir }
    }

    /// Report the address of the first directory entry that has a decimal
    /// prefix at all. An unreadable directory (`None`) reports nothing; a
    /// readable one without any scannable entry falls back to a fixed
    /// placeholder address.
    pub fn search(entries: Option<&Vec<Vec<u8>>>) -> (r: Option<u64>)
        ensures
            (match entries {
                None => r is None,
                Some(es) => (match r {
                    None => false,
                    Some(v) => (exists|i: int|
                        0 <= i < es@.len() && none_scannable_before(es@, i) && name_has_address(
                            (#[trigger] es@[i])@,
                            v as int,
                        )) || (none_scannable_before(es@, es@.len() as int) && v == 0x1234),
                }),
            }),
    {
        let es = match entries {
            None => {
                return None;
            },
            Some(es) => es,
        };
        let mut i: usize = 0;
        while i < es.len()
            invariant
                entries == Some(es),
                i <= es@.len(),
                none_scannable_before(es@, i as int),
            decreases es@.len() - i,
        {
            let e = &es[i];
            match parse::parse_name_prefix(e, 0xFFFF_FFFF_FFFF_FFFF) {
                Some(n) => {
                    proof {
                        assert(0 <= i < es@.len() && none_scannable_before(es@, i as int)
                            && name_has_address(es@[i as int]@, n as int));
                    }
                    return Some(n);
                },
                None => {},
            }
            i = i + 1;
        }
        Some(0x1234)
    }

    /// Whether the device's checksum holds; transfer-level validation is
    /// not implemented, so every handle reports a valid checksum.
    pub fn is_crc_valid(&self) -> (r: bool)
        ensures
            r,
    {
        true
    }

    /// Write on the bus; not implemented, the call does nothing.
    pub fn write() {
    }

    /// Read from the bus into `data`; not implemented, the buffer is left
    /// as it was.
    pub fn read(&self, data: &mut [u8; 8])
        ensures
            final(data)@ == old(data)@,
    {
    }
}

} // verus!
