//! An in-memory ATA device: a verified implementation of
//! [`AtaPorts`](crate::ports::AtaPorts) whose behaviour is proved equal to
//! the device model's transitions.
//!
//! With it the whole driver stack can be exercised without hardware: a
//! [`SimDevice`] can stand in for a plain ATA drive with chosen contents
//! and identify characteristics, for a device with a foreign signature,
//! or for an empty position on the bus.

use crate::device::disk_after_write;
use crate::device::le16;
use crate::device::le32;
use crate::device::word_byte;
use crate::device::word_seq_of;
use crate::device::AtaDeviceModel;
use crate::device::DeviceKind;
use crate::device::DevicePhase;
use crate::device::LatchedRegs;
use crate::identify::zero_bytes;
use crate::ports::AtaPorts;
use crate::regs::CMD_CACHE_FLUSH;
use crate::regs::CMD_CACHE_FLUSH_EXT;
use crate::regs::CMD_IDENTIFY_DEVICE;
use crate::regs::CMD_READ_PIO;
use crate::regs::CMD_READ_PIO_EXT;
use crate::regs::CMD_WRITE_PIO;
use crate::regs::CMD_WRITE_PIO_EXT;
use vstd::prelude::*;

verus! {

/// Where the simulated device stands in the command protocol; the
/// executable mirror of [`DevicePhase`].
enum SimPhase {
    Idle,
    /// Queued data words, of which the host has already pulled `next`.
    DataIn { words: Vec<u16>, next: usize },
    /// A write in progress: the words received so far.
    DataOut { lba: u64, sectors_total: u64, got: Vec<u16> },
    Faulted,
}

/// An in-memory device behind a register file.
pub struct SimDevice {
    kind: DeviceKind,
    slave: bool,
    disk: Vec<u8>,
    identify: Vec<u8>,
    regs: LatchedRegs,
    phase: SimPhase,
}

/// Splitting a 32-bit value into four little-endian bytes and
/// reassembling them gives the value back.
proof fn lemma_u32_digits(v: u32)
    ensures
        v / 0x1000000 < 0x100,
        (v % 0x100) + 0x100 * ((v / 0x100) % 0x100) + 0x10000 * ((v / 0x10000) % 0x100)
            + 0x1000000 * (v / 0x1000000) == v,
{
    assert(v / 0x1000000 < 0x100 && (v % 0x100) + 0x100 * ((v / 0x100) % 0x100) + 0x10000 * ((v
        / 0x10000) % 0x100) + 0x1000000 * (v / 0x1000000) == v) by (bit_vector);
}

impl SimDevice {
    /// What the representation keeps true at all times: the read cursor
    /// of a data-in phase never passes the end of the queued words.
    #[verifier::type_invariant]
    spec fn inv(self) -> bool {
        match self.phase {
            SimPhase::DataIn { words, next } => next < words@.len(),
            _ => true,
        }
    }

    /// The model phase this device is in.
    closed spec fn phase_model(self) -> DevicePhase {
        match self.phase {
            SimPhase::Idle => DevicePhase::Idle,
            SimPhase::DataIn { words, next } => DevicePhase::DataIn {
                words: words@.skip(next as int),
            },
            SimPhase::DataOut { lba, sectors_total, got } => DevicePhase::DataOut {
                lba: lba as nat,
                sectors_total: sectors_total as nat,
                got: got@,
            },
            SimPhase::Faulted => DevicePhase::Faulted,
        }
    }

    /// An empty position: no device answers there. `slave` names the
    /// bus position the register file would address.
    pub fn absent(slave: bool) -> (r: SimDevice)
        ensures
            r.dev().wf(),
            r.dev().kind is Absent,
            r.dev().slave == slave,
            r.dev().phase is Idle,
    {
        SimDevice {
            kind: DeviceKind::Absent,
            slave,
            disk: Vec::new(),
            identify: zero_bytes(512),
            regs: zero_regs(),
            phase: SimPhase::Idle,
        }
    }

    /// A device that identifies with a non-ATA signature pair, such as a
    /// packet-interface or SATA device.
    pub fn other(sig_mid: u8, sig_high: u8, slave: bool) -> (r: SimDevice)
        requires
            !(sig_mid == 0 && sig_high == 0),
        ensures
            r.dev().wf(),
            r.dev().kind == (DeviceKind::Other { sig_mid, sig_high }),
            r.dev().slave == slave,
            r.dev().phase is Idle,
    {
        SimDevice {
            kind: DeviceKind::Other { sig_mid, sig_high },
            slave,
            disk: Vec::new(),
            identify: zero_bytes(512),
            regs: zero_regs(),
            phase: SimPhase::Idle,
        }
    }

    /// A plain ATA drive storing `disk`, whose identify response reports
    /// the matching capacity, the given max-transfer field, and LBA
    /// support as chosen. With `report_48_bit` the 28-bit capacity field
    /// is left zero and only the 48-bit field carries the capacity.
    pub fn new_ata(
        disk: Vec<u8>,
        max_blocks_per_transfer: u8,
        lba_capable: bool,
        report_48_bit: bool,
        slave: bool,
    ) -> (r: SimDevice)
        requires
            disk@.len() % 512 == 0,
            disk@.len() / 512 <= 0x1000000000000,
            !report_48_bit ==> disk@.len() / 512 <= 0xFFFFFFFF,
        ensures
            r.dev().wf(),
            r.dev().kind is Ata,
            r.dev().slave == slave,
            r.dev().phase is Idle,
            r.dev().disk == disk@,
            r.dev().sectors == disk@.len() / 512,
            crate::device::id_lba_supported(r.dev().identify) == lba_capable,
            crate::device::id_max_blocks_per_transfer(r.dev().identify)
                == max_blocks_per_transfer,
            crate::device::id_user_addressable_sectors(r.dev().identify) == (if report_48_bit {
                0u32
            } else {
                (disk@.len() / 512) as u32
            }),
            crate::device::id_max_48_bit_lba(r.dev().identify) == (disk@.len() / 512) as u64,
            forall|k: int|
                0 <= k < 512 && k != 94 && !(98 <= k < 100) && !(120 <= k < 124) && !(200 <= k
                    < 208) ==> r.dev().identify[k] == 0,
    {
        let sectors64 = (disk.len() / 512) as u64;
        let mut identify = zero_bytes(512);
        // Word 47, low byte: max sectors per transfer.
        identify.set(94, max_blocks_per_transfer);
        // Word 49: capability bits; bit 9 advertises LBA support.
        identify.set(99, if lba_capable { 0x02 } else { 0x00 });
        // Words 60..62: capacity under 28-bit addressing, unless the
        // drive only reports the 48-bit field.
        if !report_48_bit {
            put_le32(&mut identify, 120, sectors64 as u32);
        }
        // Words 100..104: capacity under 48-bit addressing.
        put_le32(&mut identify, 200, (sectors64 % 0x100000000) as u32);
        put_le32(&mut identify, 204, (sectors64 / 0x100000000) as u32);
        proof {
            vstd::arithmetic::div_mod::lemma_fundamental_div_mod(sectors64 as int, 0x100000000);
            vstd::arithmetic::div_mod::lemma_fundamental_div_mod(disk@.len() as int, 512);
        }
        SimDevice {
            kind: DeviceKind::Ata,
            slave,
            disk,
            identify,
            regs: zero_regs(),
            phase: SimPhase::Idle,
        }
    }
}

/// A register file with every latch cleared.
fn zero_regs() -> (r: LatchedRegs)
    ensures
        r == (LatchedRegs {
            sector_count_prev: 0u8,
            sector_count_cur: 0u8,
            lba_low_prev: 0u8,
            lba_low_cur: 0u8,
            lba_mid_prev: 0u8,
            lba_mid_cur: 0u8,
            lba_high_prev: 0u8,
            lba_high_cur: 0u8,
            drive_select: 0u8,
        }),
{
    LatchedRegs {
        sector_count_prev: 0,
        sector_count_cur: 0,
        lba_low_prev: 0,
        lba_low_cur: 0,
        lba_mid_prev: 0,
        lba_mid_cur: 0,
        lba_high_prev: 0,
        lba_high_cur: 0,
        drive_select: 0,
    }
}

/// Stores a 32-bit value as four little-endian bytes at `off`, leaving
/// every other byte alone.
fn put_le32(b: &mut Vec<u8>, off: usize, v: u32)
    requires
        off + 4 <= old(b)@.len(),
        old(b)@.len() <= usize::MAX,
    ensures
        final(b)@.len() == old(b)@.len(),
        le32(final(b)@, off as int) == v,
        forall|k: int|
            0 <= k < old(b)@.len() && !(off <= k < off + 4) ==> final(b)@[k] == old(b)@[k],
{
    b.set(off, (v % 0x100) as u8);
    b.set(off + 1, ((v / 0x100) % 0x100) as u8);
    b.set(off + 2, ((v / 0x10000) % 0x100) as u8);
    b.set(off + 3, (v / 0x1000000) as u8);
    proof {
        lemma_u32_digits(v);
    }
}

/// The `n_words` 16-bit words stored little-endian at bytes
/// `start .. start + 2 * n_words` of `b`.
fn range_words(b: &Vec<u8>, start: usize, n_words: usize) -> (r: Vec<u16>)
    requires
        start + 2 * n_words <= b@.len(),
        b@.len() <= usize::MAX,
    ensures
        r@ == word_seq_of(b@.subrange(start as int, (start + 2 * n_words) as int)),
{
    let mut v: Vec<u16> = Vec::new();
    let mut i: usize = 0;
    while i < n_words
        invariant
            i <= n_words,
            start + 2 * n_words <= b@.len(),
            b@.len() <= usize::MAX,
            v@.len() == i,
            forall|j: int| 0 <= j < i ==> v@[j] == le16(b@, start + 2 * j),
        decreases n_words - i,
    {
        v.push(b[start + 2 * i] as u16 + 256 * (b[start + 2 * i + 1] as u16));
        i = i + 1;
    }
    proof {
        let sub = b@.subrange(start as int, (start + 2 * n_words) as int);
        vstd::arithmetic::div_mod::lemma_div_multiples_vanish(n_words as int, 2);
        assert(word_seq_of(sub).len() == n_words);
        assert forall|j: int| 0 <= j < n_words implies v@[j] == word_seq_of(sub)[j] by {
            assert(word_seq_of(sub)[j] == le16(sub, 2 * j));
            assert(sub[2 * j] == b@[start + 2 * j]);
            assert(sub[2 * j + 1] == b@[start + 2 * j + 1]);
        }
        assert(v@ =~= word_seq_of(sub));
    }
    v
}

/// Writes the words of a completed transfer into the stored bytes,
/// little-endian, starting at byte `base`; every other byte is left
/// alone.
fn store_words(disk: &mut Vec<u8>, base: usize, words: &Vec<u16>)
    requires
        base + 2 * words@.len() <= old(disk)@.len(),
        old(disk)@.len() <= usize::MAX,
    ensures
        final(disk)@.len() == old(disk)@.len(),
        forall|k: int|
            base <= k < base + 2 * words@.len() ==> final(disk)@[k] == word_byte(
                words@,
                k - base,
            ),
        forall|k: int|
            (0 <= k < base || base + 2 * words@.len() <= k < old(disk)@.len())
                ==> final(disk)@[k] == old(disk)@[k],
{
    let mut j: usize = 0;
    while j < words.len()
        invariant
            j <= words@.len(),
            base + 2 * words@.len() <= old(disk)@.len(),
            old(disk)@.len() <= usize::MAX,
            disk@.len() == old(disk)@.len(),
            forall|k: int| base <= k < base + 2 * j ==> disk@[k] == word_byte(words@, k - base),
            forall|k: int|
                (0 <= k < base || base + 2 * j <= k < old(disk)@.len()) ==> disk@[k]
                    == old(disk)@[k],
        decreases words@.len() - j,
    {
        let w = words[j];
        disk.set(base + 2 * j, (w % 256) as u8);
        disk.set(base + 2 * j + 1, (w / 256) as u8);
        proof {
            vstd::arithmetic::div_mod::lemma_div_multiples_vanish(j as int, 2);
            vstd::arithmetic::div_mod::lemma_fundamental_div_mod_converse(
                2 * (j as int) + 1,
                2,
                j as int,
                1,
            );
            assert(word_byte(words@, 2 * (j as int)) == (w % 256) as u8);
            assert(word_byte(words@, 2 * (j as int) + 1) == (w / 256) as u8);
        }
        j = j + 1;
    }
}

impl AtaPorts for SimDevice {
    closed spec fn dev(&self) -> AtaDeviceModel {
        AtaDeviceModel {
            kind: self.kind,
            slave: self.slave,
            sectors: self.disk@.len() / 512,
            disk: self.disk@,
            identify: self.identify@,
            regs: self.regs,
            phase: self.phase_model(),
        }
    }

    fn read_status(&self) -> (r: u8) {
        match self.kind {
            DeviceKind::Absent => 0x00,
            _ => match &self.phase {
                SimPhase::Idle => 0x40,
                SimPhase::DataIn { .. } => 0x48,
                SimPhase::DataOut { .. } => 0x48,
                SimPhase::Faulted => 0x41,
            },
        }
    }

    fn read_alternate_status(&self) -> (r: u8) {
        match self.kind {
            DeviceKind::Absent => 0x00,
            _ => match &self.phase {
                SimPhase::Idle => 0x40,
                SimPhase::DataIn { .. } => 0x48,
                SimPhase::DataOut { .. } => 0x48,
                SimPhase::Faulted => 0x41,
            },
        }
    }

    fn read_error(&self) -> (r: u8) {
        match &self.phase {
            SimPhase::Faulted => 0x04,
            _ => 0x00,
        }
    }

    fn read_lba_mid(&self) -> (r: u8) {
        match self.kind {
            DeviceKind::Other { sig_mid, .. } => sig_mid,
            _ => 0,
        }
    }

    fn read_lba_high(&self) -> (r: u8) {
        match self.kind {
            DeviceKind::Other { sig_high, .. } => sig_high,
            _ => 0,
        }
    }

    fn write_control(&mut self, v: u8) {
        proof {
            use_type_invariant(&*self);
        }
        let _ = v;
    }

    fn write_sector_count(&mut self, v: u8) {
        proof {
            use_type_invariant(&*self);
        }
        self.regs.sector_count_prev = self.regs.sector_count_cur;
        self.regs.sector_count_cur = v;
    }

    fn write_lba_low(&mut self, v: u8) {
        proof {
            use_type_invariant(&*self);
        }
        self.regs.lba_low_prev = self.regs.lba_low_cur;
        self.regs.lba_low_cur = v;
    }

    fn write_lba_mid(&mut self, v: u8) {
        proof {
            use_type_invariant(&*self);
        }
        self.regs.lba_mid_prev = self.regs.lba_mid_cur;
        self.regs.lba_mid_cur = v;
    }

    fn write_lba_high(&mut self, v: u8) {
        proof {
            use_type_invariant(&*self);
        }
        self.regs.lba_high_prev = self.regs.lba_high_cur;
        self.regs.lba_high_cur = v;
    }

    fn write_drive_select(&mut self, v: u8) {
        proof {
            use_type_invariant(&*self);
        }
        self.regs.drive_select = v;
    }

    fn write_command(&mut self, cmd: u8) {
        proof {
            use_type_invariant(&*self);
        }
        match self.kind {
            DeviceKind::Ata => {},
            _ => {
                return;
            },
        }
        // Commands only reach the drive the select register addresses.
        let sel_bit = (self.regs.drive_select / 16) % 2;
        let me: u8 = if self.slave {
            1
        } else {
            0
        };
        if sel_bit != me {
            return;
        }
        let idle = match &self.phase {
            SimPhase::Idle => true,
            _ => false,
        };
        if !idle {
            self.phase = SimPhase::Faulted;
            return;
        }
        if cmd == CMD_IDENTIFY_DEVICE {
            let words = range_words(&self.identify, 0, 256);
            proof {
                assert(self.identify@.subrange(0, 512) =~= self.identify@);
                assert(words@.skip(0) =~= words@);
            }
            self.phase = SimPhase::DataIn { words, next: 0 };
            return;
        }
        if cmd == CMD_READ_PIO || cmd == CMD_READ_PIO_EXT || cmd == CMD_WRITE_PIO || cmd
            == CMD_WRITE_PIO_EXT {
            // Decode the latched address and count the way the command
            // variant reads them.
            let (lba, count): (u64, u64) = if cmd == CMD_READ_PIO || cmd == CMD_WRITE_PIO {
                let lba = (self.regs.drive_select % 16) as u64 * 0x1000000 + (
                self.regs.lba_high_cur as u64) * 0x10000 + (self.regs.lba_mid_cur as u64) * 0x100
                    + (self.regs.lba_low_cur as u64);
                let count: u64 = if self.regs.sector_count_cur == 0 {
                    256
                } else {
                    self.regs.sector_count_cur as u64
                };
                (lba, count)
            } else {
                let lba = (self.regs.lba_high_prev as u64) * 0x10000000000 + (
                self.regs.lba_mid_prev as u64) * 0x100000000 + (self.regs.lba_low_prev as u64)
                    * 0x1000000 + (self.regs.lba_high_cur as u64) * 0x10000 + (
                self.regs.lba_mid_cur as u64) * 0x100 + (self.regs.lba_low_cur as u64);
                let count: u64 = if self.regs.sector_count_prev == 0 && self.regs.sector_count_cur
                    == 0 {
                    65536
                } else {
                    (self.regs.sector_count_prev as u64) * 256 + (
                    self.regs.sector_count_cur as u64)
                };
                (lba, count)
            };
            let sectors = (self.disk.len() / 512) as u64;
            if lba + count <= sectors {
                proof {
                    vstd::arithmetic::div_mod::lemma_fundamental_div_mod(
                        self.disk@.len() as int,
                        512,
                    );
                }
                if cmd == CMD_READ_PIO || cmd == CMD_READ_PIO_EXT {
                    let start_byte = (lba * 512) as usize;
                    let n_words = (count * 256) as usize;
                    let words = range_words(&self.disk, start_byte, n_words);
                    proof {
                        assert(words@.skip(0) =~= words@);
                    }
                    self.phase = SimPhase::DataIn { words, next: 0 };
                } else {
                    self.phase = SimPhase::DataOut { lba, sectors_total: count, got: Vec::new() };
                }
            } else {
                self.phase = SimPhase::Faulted;
            }
            return;
        }
        if cmd == CMD_CACHE_FLUSH || cmd == CMD_CACHE_FLUSH_EXT {
            return;
        }
        self.phase = SimPhase::Faulted;
    }

    fn read_data(&mut self) -> (r: u16) {
        proof {
            use_type_invariant(&*self);
        }
        let mut ph = SimPhase::Idle;
        core::mem::swap(&mut ph, &mut self.phase);
        match ph {
            SimPhase::DataIn { words, next } => {
                let total = words.len();
                let w = words[next];
                let n2 = next + 1;
                if n2 < total {
                    self.phase = SimPhase::DataIn { words, next: n2 };
                    proof {
                        assert(words@.skip(next as int).skip(1) =~= words@.skip(n2 as int));
                    }
                }
                // Draining the last word leaves the device idle.
                w
            },
            other => {
                self.phase = other;
                0
            },
        }
    }

    fn write_data(&mut self, w: u16) {
        proof {
            use_type_invariant(&*self);
        }
        let ghost disk0 = self.disk@;
        let mut ph = SimPhase::Idle;
        core::mem::swap(&mut ph, &mut self.phase);
        match ph {
            SimPhase::DataOut { lba, sectors_total, got } => {
                let mut got = got;
                got.push(w);
                if got.len() == (sectors_total as usize) * 256 {
                    // The transfer is complete: commit it to the stored
                    // bytes and return to idle.
                    let mut disk = Vec::new();
                    core::mem::swap(&mut disk, &mut self.disk);
                    store_words(&mut disk, (lba * 512) as usize, &got);
                    proof {
                        assert(disk@ =~= disk_after_write(disk0, lba as nat, got@));
                    }
                    self.disk = disk;
                } else {
                    self.phase = SimPhase::DataOut { lba, sectors_total, got };
                }
            },
            other => {
                self.phase = other;
            },
        }
    }
}

} // verus!
