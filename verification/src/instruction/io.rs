//! The port-mapped I/O rule: only port 0x03F8 is wired to the console; a
//! read from any other port yields zero and a write to any other port is
//! dropped. The blocking console primitives themselves live with the caller,
//! which hands a read byte in and carries a written byte out.

use vstd::prelude::*;

verus! {

/// The port of the console, the one port wired to a real effect.
pub const CONSOLE_PORT: u16 = 0x03F8;

/// The byte a port read yields: the byte the console supplied when
/// `address` is the console port, zero for every other port.
pub fn in8(address: u16, data: u8) -> (r: u8)
    ensures
        r == (if address == CONSOLE_PORT {
            data
        } else {
            0u8
        }),
{
    if address == CONSOLE_PORT {
        data
    } else {
        0
    }
}

/// The byte a port write forwards to the console: the value when `address`
/// is the console port, nothing for every other port.
pub fn out8(address: u16, value: u8) -> (r: Option<u8>)
    ensures
        r == (if address == CONSOLE_PORT {
            Some(value)
        } else {
            None::<u8>
        }),
{
    if address == CONSOLE_PORT {
        Some(value)
    } else {
        None
    }
}

} // verus!
