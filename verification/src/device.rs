//! A mathematical model of one ATA device as seen through its register file.
//!
//! The model captures exactly what the driver relies on: the drive's stored
//! bytes, the two-deep latches behind the sector-count and address registers
//! (48-bit commands send each register two bytes in a row, high byte first),
//! and the phase of the command protocol. Contracts on the
//! [`crate::ports::AtaPorts`] trait describe every register access as a
//! transition of this model, and the protocol engine is verified against
//! those transitions.

use vstd::prelude::*;

verus! {

/// What kind of device answers at one drive position of a bus.
#[derive(Clone, Copy)]
pub enum DeviceKind {
    /// Nothing is attached: the status register reads as all zeroes.
    Absent,
    /// A plain parallel ATA drive, the only kind the driver accepts.
    Ata,
    /// A device that identifies with a non-ATA signature pair, such as a
    /// packet-interface drive or a SATA drive in emulation mode.
    Other { sig_mid: u8, sig_high: u8 },
}

/// The write-latched command registers shared by both drives of a bus.
///
/// Each of the sector-count and address registers keeps the two most
/// recently written bytes: a 48-bit command reads the older byte as the
/// high-order byte and the newer one as the low-order byte, while a 28-bit
/// command reads only the newer byte.
#[derive(Clone, Copy)]
pub struct LatchedRegs {
    pub sector_count_prev: u8,
    pub sector_count_cur: u8,
    pub lba_low_prev: u8,
    pub lba_low_cur: u8,
    pub lba_mid_prev: u8,
    pub lba_mid_cur: u8,
    pub lba_high_prev: u8,
    pub lba_high_cur: u8,
    pub drive_select: u8,
}

/// Where the device stands in the command protocol.
pub enum DevicePhase {
    /// No command in flight; ready to accept one.
    Idle,
    /// A read or identify command was accepted; `words` are the 16-bit data
    /// words the host has not yet pulled from the data register.
    DataIn { words: Seq<u16> },
    /// A write command was accepted; the device expects
    /// `sectors_total * 256` words in all and has received `got` so far.
    DataOut { lba: nat, sectors_total: nat, got: Seq<u16> },
    /// The device observed a protocol violation or an impossible request
    /// and reports an error status.
    Faulted,
}

/// The full model of one device: identity, stored data, register latches,
/// and protocol phase.
pub struct AtaDeviceModel {
    pub kind: DeviceKind,
    /// True if this device occupies the slave position of its bus; commands
    /// only take effect when the drive-select register addresses it.
    pub slave: bool,
    /// Capacity in sectors.
    pub sectors: nat,
    /// The stored bytes, `sectors * 512` of them.
    pub disk: Seq<u8>,
    /// The 512-byte response the device returns to an identify command.
    pub identify: Seq<u8>,
    pub regs: LatchedRegs,
    pub phase: DevicePhase,
}

// ---------------------------------------------------------------------------
// Byte-order helpers: every multi-byte field of the wire format is
// little-endian within and across its 16-bit words.

/// The 16-bit value stored little-endian at byte offset `i`.
pub open spec fn le16(b: Seq<u8>, i: int) -> u16 {
    (b[i] as nat + 256 * (b[i + 1] as nat)) as u16
}

/// The 32-bit value stored little-endian at byte offset `i`.
pub open spec fn le32(b: Seq<u8>, i: int) -> u32 {
    (b[i] as nat + 0x100 * (b[i + 1] as nat) + 0x10000 * (b[i + 2] as nat) + 0x1000000 * (b[i
        + 3] as nat)) as u32
}

/// The 64-bit value stored little-endian at byte offset `i`.
pub open spec fn le64(b: Seq<u8>, i: int) -> u64 {
    (le32(b, i) as nat + 0x100000000 * (le32(b, i + 4) as nat)) as u64
}

/// The byte sequence `b` as a sequence of little-endian 16-bit data words,
/// the way the device hands bytes out through its data register.
pub open spec fn word_seq_of(b: Seq<u8>) -> Seq<u16> {
    Seq::new(b.len() / 2, |i: int| le16(b, 2 * i))
}

/// Byte `j` of the byte sequence that a word sequence spells out.
pub open spec fn word_byte(words: Seq<u16>, j: int) -> u8 {
    if j % 2 == 0 {
        (words[j / 2] % 256) as u8
    } else {
        (words[j / 2] / 256) as u8
    }
}

/// The device's stored bytes after a completed write of `words` starting at
/// sector `lba`: the written window spells the words out little-endian, and
/// every other byte is unchanged.
pub open spec fn disk_after_write(disk: Seq<u8>, lba: nat, words: Seq<u16>) -> Seq<u8> {
    Seq::new(
        disk.len(),
        |k: int|
            if lba * 512 <= k < lba * 512 + 2 * words.len() {
                word_byte(words, k - lba * 512)
            } else {
                disk[k]
            },
    )
}

/// Reading a byte sequence out as little-endian data words and spelling
/// those words back into bytes gives the original sequence.
pub proof fn lemma_words_roundtrip(b: Seq<u8>)
    requires
        b.len() % 2 == 0,
    ensures
        forall|k: int| 0 <= k < b.len() ==> word_byte(word_seq_of(b), k) == b[k],
{
    assert forall|k: int| 0 <= k < b.len() implies word_byte(word_seq_of(b), k) == b[k] by {
        let w = word_seq_of(b);
        assert(0 <= k / 2 < w.len());
        assert(w[k / 2] == le16(b, 2 * (k / 2)));
        let lo = b[2 * (k / 2)];
        let hi = b[2 * (k / 2) + 1];
        assert(lo as nat + 256 * (hi as nat) <= 65535);
        assert(w[k / 2] as nat == lo as nat + 256 * (hi as nat));
        if k % 2 == 0 {
            assert(2 * (k / 2) == k);
        } else {
            assert(2 * (k / 2) + 1 == k);
        }
    }
}

/// A word of a sequence's tail is a word of the whole, two bytes further
/// along per skipped word.
pub proof fn lemma_word_byte_skip(w: Seq<u16>, c: int, m: int)
    requires
        0 <= c,
        0 <= m,
        c + m / 2 < w.len(),
    ensures
        word_byte(w.skip(c), m) == word_byte(w, 2 * c + m),
{
    assert(w.skip(c)[m / 2] == w[c + m / 2]);
    vstd::arithmetic::div_mod::lemma_fundamental_div_mod(m, 2);
    vstd::arithmetic::div_mod::lemma_fundamental_div_mod_converse(
        2 * c + m,
        2,
        c + m / 2,
        m % 2,
    );
}

// ---------------------------------------------------------------------------
// Fields of the identify response that the driver's logic reads.

/// Word 47, low byte: the most sectors one command may transfer.
pub open spec fn id_max_blocks_per_transfer(id: Seq<u8>) -> u8 {
    id[94]
}

/// Word 49: the capability bits; bit 9 is LBA support.
pub open spec fn id_capabilities(id: Seq<u8>) -> u16 {
    le16(id, 98)
}

/// True when the capability bits advertise LBA addressing.
pub open spec fn id_lba_supported(id: Seq<u8>) -> bool {
    (id_capabilities(id) / 0x200) % 2 == 1
}

/// Words 60..62: capacity in sectors under 28-bit addressing; zero means
/// the 48-bit field must be used instead.
pub open spec fn id_user_addressable_sectors(id: Seq<u8>) -> u32 {
    le32(id, 120)
}

/// Words 100..104: capacity in sectors under 48-bit addressing.
pub open spec fn id_max_48_bit_lba(id: Seq<u8>) -> u64 {
    le64(id, 200)
}

/// The capacity the identify response reports: the 28-bit field when it is
/// non-zero, the 48-bit field otherwise.
pub open spec fn id_sector_count(id: Seq<u8>) -> nat {
    if id_user_addressable_sectors(id) != 0 {
        id_user_addressable_sectors(id) as nat
    } else {
        id_max_48_bit_lba(id) as nat
    }
}

// ---------------------------------------------------------------------------
// Register read-back values.

impl AtaDeviceModel {
    /// The byte the status register reads as. An absent device floats all
    /// zeroes; a present one always reports ready (0x40), plus the
    /// data-request bit (0x08) during a data phase or the error bit (0x01)
    /// after a fault. The model never reports busy: every transition
    /// completes before the next status read.
    pub open spec fn status_byte(self) -> u8 {
        match self.kind {
            DeviceKind::Absent => 0x00,
            _ => match self.phase {
                DevicePhase::Idle => 0x40,
                DevicePhase::DataIn { .. } => 0x48,
                DevicePhase::DataOut { .. } => 0x48,
                DevicePhase::Faulted => 0x41,
            },
        }
    }

    /// The byte the error register reads as: command-aborted after a fault.
    pub open spec fn error_byte(self) -> u8 {
        if self.phase is Faulted {
            0x04
        } else {
            0x00
        }
    }

    /// What the LBA-mid register reads back: the device's signature byte.
    /// A plain ATA device reports zero.
    pub open spec fn sig_mid(self) -> u8 {
        match self.kind {
            DeviceKind::Other { sig_mid, .. } => sig_mid,
            _ => 0,
        }
    }

    /// What the LBA-high register reads back: the device's signature byte.
    pub open spec fn sig_high(self) -> u8 {
        match self.kind {
            DeviceKind::Other { sig_high, .. } => sig_high,
            _ => 0,
        }
    }

    /// The words still queued for the host during a data-in phase, and
    /// the empty sequence in any other phase.
    pub open spec fn data_words(self) -> Seq<u16> {
        match self.phase {
            DevicePhase::DataIn { words } => words,
            _ => Seq::empty(),
        }
    }

    /// True when the drive-select register's master/slave bit (bit 4)
    /// addresses this device.
    pub open spec fn selected(self) -> bool {
        (self.regs.drive_select / 16) % 2 == (if self.slave {
            1u8
        } else {
            0u8
        })
    }

    /// Well-formedness: the stored bytes match the capacity, the capacity
    /// fits the address space, the identify response is one sector that
    /// reports the true capacity, signatures of other devices are never the
    /// ATA signature, and the phase bookkeeping is consistent. Only an ATA
    /// device ever enters a data phase.
    pub open spec fn wf(self) -> bool {
        &&& self.disk.len() == self.sectors * 512
        &&& self.sectors * 512 <= usize::MAX
        &&& self.sectors <= 0x1000000000000
        &&& self.identify.len() == 512
        &&& (self.kind is Ata ==> id_sector_count(self.identify) == self.sectors)
        &&& (match self.kind {
            DeviceKind::Other { sig_mid, sig_high } => !(sig_mid == 0 && sig_high == 0),
            _ => true,
        })
        &&& (match self.phase {
            DevicePhase::Idle => true,
            DevicePhase::DataIn { words } => self.kind is Ata && words.len() >= 1,
            DevicePhase::DataOut { lba, sectors_total, got } => {
                &&& self.kind is Ata
                &&& sectors_total >= 1
                &&& lba + sectors_total <= self.sectors
                &&& got.len() < sectors_total * 256
            },
            DevicePhase::Faulted => self.kind is Ata,
        })
    }
}

// ---------------------------------------------------------------------------
// Decoding the latched registers into an address and a sector count.

/// The logical block address a 28-bit command reads from the registers:
/// the low nibble of drive-select supplies bits 24..28.
pub open spec fn lba28_of(r: LatchedRegs) -> nat {
    (r.drive_select % 16) as nat * 0x1000000 + (r.lba_high_cur as nat) * 0x10000 + (
    r.lba_mid_cur as nat) * 0x100 + (r.lba_low_cur as nat)
}

/// The sector count a 28-bit command reads: a zero byte means 256.
pub open spec fn count28_of(r: LatchedRegs) -> nat {
    if r.sector_count_cur == 0 {
        256
    } else {
        r.sector_count_cur as nat
    }
}

/// The logical block address a 48-bit command reads from the registers:
/// the older latched bytes are the high-order half, so the high bytes must
/// have been written before the low bytes.
pub open spec fn lba48_of(r: LatchedRegs) -> nat {
    (r.lba_high_prev as nat) * 0x10000000000 + (r.lba_mid_prev as nat) * 0x100000000 + (
    r.lba_low_prev as nat) * 0x1000000 + (r.lba_high_cur as nat) * 0x10000 + (
    r.lba_mid_cur as nat) * 0x100 + (r.lba_low_cur as nat)
}

/// The sector count a 48-bit command reads from the two latched bytes:
/// all-zero means 65536.
pub open spec fn count48_of(r: LatchedRegs) -> nat {
    if r.sector_count_prev == 0 && r.sector_count_cur == 0 {
        65536
    } else {
        (r.sector_count_prev as nat) * 256 + (r.sector_count_cur as nat)
    }
}

// ---------------------------------------------------------------------------
// Transitions. Register writes latch values; a command write decodes the
// latches and moves the device into a data phase, and data-register traffic
// drains that phase.

impl AtaDeviceModel {
    /// The model after a byte is written to the sector-count register.
    pub open spec fn after_sector_count_write(self, v: u8) -> AtaDeviceModel {
        AtaDeviceModel {
            regs: LatchedRegs {
                sector_count_prev: self.regs.sector_count_cur,
                sector_count_cur: v,
                ..self.regs
            },
            ..self
        }
    }

    /// The model after a byte is written to the LBA-low register.
    pub open spec fn after_lba_low_write(self, v: u8) -> AtaDeviceModel {
        AtaDeviceModel {
            regs: LatchedRegs { lba_low_prev: self.regs.lba_low_cur, lba_low_cur: v, ..self.regs },
            ..self
        }
    }

    /// The model after a byte is written to the LBA-mid register.
    pub open spec fn after_lba_mid_write(self, v: u8) -> AtaDeviceModel {
        AtaDeviceModel {
            regs: LatchedRegs { lba_mid_prev: self.regs.lba_mid_cur, lba_mid_cur: v, ..self.regs },
            ..self
        }
    }

    /// The model after a byte is written to the LBA-high register.
    pub open spec fn after_lba_high_write(self, v: u8) -> AtaDeviceModel {
        AtaDeviceModel {
            regs: LatchedRegs {
                lba_high_prev: self.regs.lba_high_cur,
                lba_high_cur: v,
                ..self.regs
            },
            ..self
        }
    }

    /// The model after a byte is written to the drive-select register.
    pub open spec fn after_drive_select_write(self, v: u8) -> AtaDeviceModel {
        AtaDeviceModel { regs: LatchedRegs { drive_select: v, ..self.regs }, ..self }
    }

    /// The model after a command byte is written. Absent and non-ATA
    /// devices ignore commands, as does an ATA device that is not the
    /// selected one. A command issued while a transfer is in flight, or one
    /// whose decoded range leaves the device, faults; a well-formed request
    /// enters the matching data phase.
    pub open spec fn after_command_write(self, cmd: u8) -> AtaDeviceModel {
        if !(self.kind is Ata) || !self.selected() {
            self
        } else if !(self.phase is Idle) {
            AtaDeviceModel { phase: DevicePhase::Faulted, ..self }
        } else if cmd == crate::regs::CMD_IDENTIFY_DEVICE {
            AtaDeviceModel { phase: DevicePhase::DataIn { words: word_seq_of(self.identify) }, ..self }
        } else if cmd == crate::regs::CMD_READ_PIO {
            self.accept_read(lba28_of(self.regs), count28_of(self.regs))
        } else if cmd == crate::regs::CMD_READ_PIO_EXT {
            self.accept_read(lba48_of(self.regs), count48_of(self.regs))
        } else if cmd == crate::regs::CMD_WRITE_PIO {
            self.accept_write(lba28_of(self.regs), count28_of(self.regs))
        } else if cmd == crate::regs::CMD_WRITE_PIO_EXT {
            self.accept_write(lba48_of(self.regs), count48_of(self.regs))
        } else if cmd == crate::regs::CMD_CACHE_FLUSH || cmd == crate::regs::CMD_CACHE_FLUSH_EXT {
            self
        } else {
            AtaDeviceModel { phase: DevicePhase::Faulted, ..self }
        }
    }

    /// A read command for `count` sectors starting at `lba`: in range, the
    /// device queues the stored bytes of that span as data words; out of
    /// range, it faults.
    pub open spec fn accept_read(self, lba: nat, count: nat) -> AtaDeviceModel {
        if lba + count <= self.sectors {
            AtaDeviceModel {
                phase: DevicePhase::DataIn {
                    words: word_seq_of(
                        self.disk.subrange((lba * 512) as int, (lba * 512 + count * 512) as int),
                    ),
                },
                ..self
            }
        } else {
            AtaDeviceModel { phase: DevicePhase::Faulted, ..self }
        }
    }

    /// A write command for `count` sectors starting at `lba`: in range, the
    /// device starts collecting the words of the transfer; out of range, it
    /// faults.
    pub open spec fn accept_write(self, lba: nat, count: nat) -> AtaDeviceModel {
        if lba + count <= self.sectors {
            AtaDeviceModel {
                phase: DevicePhase::DataOut { lba, sectors_total: count, got: Seq::empty() },
                ..self
            }
        } else {
            AtaDeviceModel { phase: DevicePhase::Faulted, ..self }
        }
    }

    /// The model after the host reads one word from the data register:
    /// the front of the queued words is consumed, and draining the last
    /// word returns the device to idle. Outside a data-in phase the read
    /// changes nothing.
    pub open spec fn after_data_read(self) -> AtaDeviceModel {
        match self.phase {
            DevicePhase::DataIn { words } => {
                if words.len() <= 1 {
                    AtaDeviceModel { phase: DevicePhase::Idle, ..self }
                } else {
                    AtaDeviceModel { phase: DevicePhase::DataIn { words: words.skip(1) }, ..self }
                }
            },
            _ => self,
        }
    }

    /// The model after the host writes one word to the data register: the
    /// word joins the collected transfer, and the final word commits the
    /// whole transfer to the stored bytes and returns the device to idle.
    /// Outside a data-out phase the write changes nothing.
    pub open spec fn after_data_write(self, w: u16) -> AtaDeviceModel {
        match self.phase {
            DevicePhase::DataOut { lba, sectors_total, got } => {
                let got2 = got.push(w);
                if got2.len() == sectors_total * 256 {
                    AtaDeviceModel {
                        disk: disk_after_write(self.disk, lba, got2),
                        phase: DevicePhase::Idle,
                        ..self
                    }
                } else {
                    AtaDeviceModel {
                        phase: DevicePhase::DataOut { lba, sectors_total, got: got2 },
                        ..self
                    }
                }
            },
            _ => self,
        }
    }
}

} // verus!
