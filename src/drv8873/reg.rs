//! DRV8873 register addresses.
use vstd::prelude::*;

verus! {

pub const FAULT: u8 = 0x00;
pub const DIAG: u8 = 0x01;
pub const IC1: u8 = 0x02;
pub const IC2: u8 = 0x03;
pub const IC3: u8 = 0x04;
pub const IC4: u8 = 0x05;

} // verus!
