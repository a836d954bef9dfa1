//! Command opcodes and the decoded forms of the status and error registers.
//!
//! The status and error registers each pack eight independent flags into
//! one byte. [`AtaStatus`] and [`AtaError`] wrap such a byte and expose one
//! accessor per flag, specified by plain arithmetic on the byte's value.

use vstd::prelude::*;

verus! {

/// Read sectors with programmed I/O, 28-bit addressing.
pub const CMD_READ_PIO: u8 = 0x20;

/// Read sectors with programmed I/O, 48-bit addressing.
pub const CMD_READ_PIO_EXT: u8 = 0x24;

/// Write sectors with programmed I/O, 28-bit addressing.
pub const CMD_WRITE_PIO: u8 = 0x30;

/// Write sectors with programmed I/O, 48-bit addressing.
pub const CMD_WRITE_PIO_EXT: u8 = 0x34;

/// Flush the drive's cache; issued after every write, 28-bit form.
pub const CMD_CACHE_FLUSH: u8 = 0xE7;

/// Flush the drive's cache; issued after every write, 48-bit form.
pub const CMD_CACHE_FLUSH_EXT: u8 = 0xEA;

/// Ask the device for its 512-byte identify record.
pub const CMD_IDENTIFY_DEVICE: u8 = 0xEC;

/// True when the flag of the given power-of-two `weight` is set in `bits`.
pub open spec fn flag_set(bits: u8, weight: u8) -> bool {
    (bits / weight) % 2 == 1
}

/// The status register's value, decoded flag by flag.
#[derive(Clone, Copy, Debug)]
pub struct AtaStatus {
    pub bits: u8,
}

impl AtaStatus {
    /// Wraps a raw status byte.
    pub fn from_bits(bits: u8) -> (r: AtaStatus)
        ensures
            r.bits == bits,
    {
        AtaStatus { bits }
    }

    /// The device is still changing its register values; nothing else in
    /// the byte is meaningful while this is set.
    pub open spec fn spec_busy(self) -> bool {
        flag_set(self.bits, 0x80)
    }

    pub fn busy(&self) -> (r: bool)
        ensures
            r == self.spec_busy(),
    {
        (self.bits / 0x80) % 2 == 1
    }

    /// The drive is powered up and spun up.
    pub open spec fn spec_drive_ready(self) -> bool {
        flag_set(self.bits, 0x40)
    }

    pub fn drive_ready(&self) -> (r: bool)
        ensures
            r == self.spec_drive_ready(),
    {
        (self.bits / 0x40) % 2 == 1
    }

    /// A write failed at the medium.
    pub open spec fn spec_drive_write_fault(self) -> bool {
        flag_set(self.bits, 0x20)
    }

    pub fn drive_write_fault(&self) -> (r: bool)
        ensures
            r == self.spec_drive_write_fault(),
    {
        (self.bits / 0x20) % 2 == 1
    }

    /// The head has settled over the requested track.
    pub open spec fn spec_drive_seek_complete(self) -> bool {
        flag_set(self.bits, 0x10)
    }

    pub fn drive_seek_complete(&self) -> (r: bool)
        ensures
            r == self.spec_drive_seek_complete(),
    {
        (self.bits / 0x10) % 2 == 1
    }

    /// The device is ready to move data through the data register.
    pub open spec fn spec_data_request_ready(self) -> bool {
        flag_set(self.bits, 0x08)
    }

    pub fn data_request_ready(&self) -> (r: bool)
        ensures
            r == self.spec_data_request_ready(),
    {
        (self.bits / 0x08) % 2 == 1
    }

    /// Data was corrected on the fly; informational only.
    pub open spec fn spec_corrected_data(self) -> bool {
        flag_set(self.bits, 0x04)
    }

    pub fn corrected_data(&self) -> (r: bool)
        ensures
            r == self.spec_corrected_data(),
    {
        (self.bits / 0x04) % 2 == 1
    }

    /// The index mark just passed under the head; informational only.
    pub open spec fn spec_index(self) -> bool {
        flag_set(self.bits, 0x02)
    }

    pub fn index(&self) -> (r: bool)
        ensures
            r == self.spec_index(),
    {
        (self.bits / 0x02) % 2 == 1
    }

    /// The last command ended in an error; details sit in the error
    /// register.
    pub open spec fn spec_error(self) -> bool {
        flag_set(self.bits, 0x01)
    }

    pub fn error(&self) -> (r: bool)
        ensures
            r == self.spec_error(),
    {
        self.bits % 2 == 1
    }

    /// True when no flag at all is set; an all-zero status means no device
    /// answered the probe.
    pub open spec fn spec_is_empty(self) -> bool {
        self.bits == 0
    }

    pub fn is_empty(&self) -> (r: bool)
        ensures
            r == self.spec_is_empty(),
    {
        self.bits == 0
    }
}

/// The error register's value, decoded flag by flag.
#[derive(Clone, Copy, Debug)]
pub struct AtaError {
    pub bits: u8,
}

impl AtaError {
    /// Wraps a raw error byte.
    pub fn from_bits(bits: u8) -> (r: AtaError)
        ensures
            r.bits == bits,
    {
        AtaError { bits }
    }

    pub open spec fn spec_bad_block(self) -> bool {
        flag_set(self.bits, 0x80)
    }

    pub fn bad_block(&self) -> (r: bool)
        ensures
            r == self.spec_bad_block(),
    {
        (self.bits / 0x80) % 2 == 1
    }

    pub open spec fn spec_uncorrectable_data(self) -> bool {
        flag_set(self.bits, 0x40)
    }

    pub fn uncorrectable_data(&self) -> (r: bool)
        ensures
            r == self.spec_uncorrectable_data(),
    {
        (self.bits / 0x40) % 2 == 1
    }

    pub open spec fn spec_media_changed(self) -> bool {
        flag_set(self.bits, 0x20)
    }

    pub fn media_changed(&self) -> (r: bool)
        ensures
            r == self.spec_media_changed(),
    {
        (self.bits / 0x20) % 2 == 1
    }

    pub open spec fn spec_id_mark_not_found(self) -> bool {
        flag_set(self.bits, 0x10)
    }

    pub fn id_mark_not_found(&self) -> (r: bool)
        ensures
            r == self.spec_id_mark_not_found(),
    {
        (self.bits / 0x10) % 2 == 1
    }

    pub open spec fn spec_media_change_request(self) -> bool {
        flag_set(self.bits, 0x08)
    }

    pub fn media_change_request(&self) -> (r: bool)
        ensures
            r == self.spec_media_change_request(),
    {
        (self.bits / 0x08) % 2 == 1
    }

    pub open spec fn spec_command_aborted(self) -> bool {
        flag_set(self.bits, 0x04)
    }

    pub fn command_aborted(&self) -> (r: bool)
        ensures
            r == self.spec_command_aborted(),
    {
        (self.bits / 0x04) % 2 == 1
    }

    pub open spec fn spec_track_0_not_found(self) -> bool {
        flag_set(self.bits, 0x02)
    }

    pub fn track_0_not_found(&self) -> (r: bool)
        ensures
            r == self.spec_track_0_not_found(),
    {
        (self.bits / 0x02) % 2 == 1
    }

    pub open spec fn spec_address_mark_not_found(self) -> bool {
        flag_set(self.bits, 0x01)
    }

    pub fn address_mark_not_found(&self) -> (r: bool)
        ensures
            r == self.spec_address_mark_not_found(),
    {
        self.bits % 2 == 1
    }
}

} // verus!
