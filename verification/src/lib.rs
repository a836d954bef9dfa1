//! A verified driver core for parallel ATA (IDE) drives accessed through
//! programmed I/O.
//!
//! The crate separates the drive protocol from the hardware it talks to.
//! Every register access goes through the [`ports::AtaPorts`] trait, whose
//! contracts are stated against a mathematical model of one ATA device
//! ([`device::AtaDeviceModel`]). The protocol engine [`drive::AtaDrive`] is
//! verified against those contracts: reads return exactly the device's
//! stored bytes, writes store exactly the caller's bytes, and probing
//! classifies devices by their reported signatures. An in-memory device
//! ([`sim::SimDevice`]) implements the trait with full proofs, so the whole
//! stack from protocol to device can be exercised without hardware.

use vstd::prelude::*;

pub mod controller;
pub mod device;
pub mod drive;
pub mod identify;
pub mod ports;
pub mod regs;
pub mod sim;

verus! {

/// Number of bytes in one ATA sector, the transfer granularity of the drive.
pub const SECTOR_SIZE_IN_BYTES: usize = 512;

/// The largest logical block address expressible with 28-bit addressing.
pub const MAX_LBA_28_VALUE: u64 = 0xFFFFFFF;

/// Why a drive operation or a probe failed.
///
/// All of these are ordinary results handed back to the caller; none is
/// fatal. The first four can only come from construction, the rest from
/// transfers and the bus reset.
#[derive(Clone, Copy, Debug, PartialEq, Eq, Structural)]
pub enum DriveError {
    /// The status register read as all zeroes: no device answered.
    NotPresent,
    /// The device signalled a non-ATA signature while still busy.
    NotAta,
    /// The device's signature is not the plain ATA signature.
    UnsupportedDevice,
    /// The device only supports cylinder-head-sector addressing.
    ChsUnsupported,
    /// The byte offset lies beyond the drive's capacity.
    OutOfBounds,
    /// The transfer would span more sectors than the drive allows at once.
    TransferTooLarge,
    /// A write's offset or length is not a multiple of the sector size.
    Unaligned,
    /// The status register reported an error or write-fault condition.
    HardwareError,
    /// The operation is declared but deliberately not provided.
    Unimplemented,
}

} // verus!
