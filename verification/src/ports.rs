//! The register-access capability a drive is built over.
//!
//! A value implementing [`AtaPorts`] stands for the register file of one
//! device position on one IDE channel: the byte-wide command-block and
//! control-block registers the protocol uses, plus the 16-bit data
//! register. Each method's
//! contract describes the access as a transition of the device model, so
//! the protocol engine can be verified once and run over any
//! implementation: the in-memory device of [`crate::sim`] (whose
//! implementation is itself verified against these contracts), or raw port
//! I/O supplied by the surrounding system.

use crate::device::AtaDeviceModel;
use crate::device::DevicePhase;
use vstd::prelude::*;

verus! {

pub trait AtaPorts: Sized {
    /// The model of the device these registers reach. The default is an
    /// empty position; an implementation whose contracts are meant to be
    /// used overrides it with its own model.
    open spec fn dev(&self) -> AtaDeviceModel {
        AtaDeviceModel {
            kind: crate::device::DeviceKind::Absent,
            slave: false,
            sectors: 0,
            disk: Seq::empty(),
            identify: Seq::empty(),
            regs: crate::device::LatchedRegs {
                sector_count_prev: 0,
                sector_count_cur: 0,
                lba_low_prev: 0,
                lba_low_cur: 0,
                lba_mid_prev: 0,
                lba_mid_cur: 0,
                lba_high_prev: 0,
                lba_high_cur: 0,
                drive_select: 0,
            },
            phase: DevicePhase::Idle,
        }
    }

    /// Reads the status register.
    fn read_status(&self) -> (r: u8)
        ensures
            r == self.dev().status_byte(),
    ;

    /// Reads the alternate-status register, which mirrors the status
    /// register; reading it takes roughly 100ns, so four discarded reads
    /// give the settling delay the protocol asks for.
    fn read_alternate_status(&self) -> (r: u8)
        ensures
            r == self.dev().status_byte(),
    ;

    /// Reads the error register.
    fn read_error(&self) -> (r: u8)
        ensures
            r == self.dev().error_byte(),
    ;

    /// Reads the LBA-mid register, which after an identify command carries
    /// the device's signature byte.
    fn read_lba_mid(&self) -> (r: u8)
        ensures
            r == self.dev().sig_mid(),
    ;

    /// Reads the LBA-high register, the other signature byte.
    fn read_lba_high(&self) -> (r: u8)
        ensures
            r == self.dev().sig_high(),
    ;

    /// Writes the control register; the driver only ever writes zero, to
    /// run with interrupts disabled, which the model does not track.
    fn write_control(&mut self, v: u8)
        requires
            old(self).dev().wf(),
        ensures
            final(self).dev() == old(self).dev(),
    ;

    /// Writes one byte into the sector-count latch.
    fn write_sector_count(&mut self, v: u8)
        requires
            old(self).dev().wf(),
        ensures
            final(self).dev() == old(self).dev().after_sector_count_write(v),
            final(self).dev().wf(),
    ;

    /// Writes one byte into the LBA-low latch.
    fn write_lba_low(&mut self, v: u8)
        requires
            old(self).dev().wf(),
        ensures
            final(self).dev() == old(self).dev().after_lba_low_write(v),
            final(self).dev().wf(),
    ;

    /// Writes one byte into the LBA-mid latch.
    fn write_lba_mid(&mut self, v: u8)
        requires
            old(self).dev().wf(),
        ensures
            final(self).dev() == old(self).dev().after_lba_mid_write(v),
            final(self).dev().wf(),
    ;

    /// Writes one byte into the LBA-high latch.
    fn write_lba_high(&mut self, v: u8)
        requires
            old(self).dev().wf(),
        ensures
            final(self).dev() == old(self).dev().after_lba_high_write(v),
            final(self).dev().wf(),
    ;

    /// Writes the drive-select register.
    fn write_drive_select(&mut self, v: u8)
        requires
            old(self).dev().wf(),
        ensures
            final(self).dev() == old(self).dev().after_drive_select_write(v),
            final(self).dev().wf(),
    ;

    /// Writes a command byte; the device decodes the latched registers and
    /// moves to the phase the model prescribes.
    fn write_command(&mut self, cmd: u8)
        requires
            old(self).dev().wf(),
        ensures
            final(self).dev() == old(self).dev().after_command_write(cmd),
            final(self).dev().wf(),
    ;

    /// Reads one word from the data register; during a data-in phase this
    /// hands out the next queued word.
    fn read_data(&mut self) -> (r: u16)
        requires
            old(self).dev().wf(),
        ensures
            final(self).dev() == old(self).dev().after_data_read(),
            final(self).dev().wf(),
            (match old(self).dev().phase {
                DevicePhase::DataIn { words } => r == words[0],
                _ => true,
            }),
    ;

    /// Writes one word to the data register; during a data-out phase the
    /// device collects it, and the final word commits the transfer.
    fn write_data(&mut self, w: u16)
        requires
            old(self).dev().wf(),
        ensures
            final(self).dev() == old(self).dev().after_data_write(w),
            final(self).dev().wf(),
    ;
}

} // verus!
