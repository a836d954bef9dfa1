//! The protocol engine: one ATA drive, probed and driven over an
//! [`AtaPorts`] register file.
//!
//! Construction zeroes the control register, runs the identify exchange,
//! classifies the device by its signature, and rejects anything that is
//! not a plain ATA drive with LBA addressing. Transfers translate byte
//! offsets to sector bounds, choose 28- or 48-bit addressing from the
//! starting sector, and move data through the 16-bit data register one
//! sector at a time, polling the status register between steps.

use crate::device::count28_of;
use crate::device::count48_of;
use crate::device::id_lba_supported;
use crate::device::id_sector_count;
use crate::device::lba28_of;
use crate::device::le16;
use crate::device::lba48_of;
use crate::device::word_byte;
use crate::device::word_seq_of;
use crate::device::AtaDeviceModel;
use crate::device::DevicePhase;
use crate::identify::parses;
use crate::identify::AtaIdentifyData;
use crate::ports::AtaPorts;
use crate::regs::AtaError;
use crate::regs::AtaStatus;
use crate::regs::CMD_CACHE_FLUSH;
use crate::regs::CMD_CACHE_FLUSH_EXT;
use crate::regs::CMD_IDENTIFY_DEVICE;
use crate::regs::CMD_READ_PIO;
use crate::regs::CMD_READ_PIO_EXT;
use crate::regs::CMD_WRITE_PIO;
use crate::regs::CMD_WRITE_PIO_EXT;
use crate::DriveError;
use crate::MAX_LBA_28_VALUE;
use crate::SECTOR_SIZE_IN_BYTES;
use vstd::prelude::*;

verus! {

/// The possible types of drive devices that can be attached to an IDE
/// controller, told apart by the signature pair the device leaves in the
/// LBA-mid and LBA-high registers after an identify command.
#[derive(Clone, Copy, Debug, PartialEq, Eq, Structural)]
pub enum AtaDeviceType {
    /// A parallel ATA drive, such as a hard drive.
    Pata,
    /// A parallel ATA drive that uses the packet interface, such as an
    /// optical drive.
    PataPi,
    /// A serial ATA drive operating in legacy IDE emulation mode.
    Sata,
    /// A serial ATA drive in legacy emulation mode that uses the packet
    /// interface.
    SataPi,
}

/// The classification [`AtaDeviceType::from_lba`] computes: only the four
/// known signature pairs name a device type.
pub open spec fn device_type_of(lba_mid: u8, lba_high: u8) -> Option<AtaDeviceType> {
    if lba_mid == 0x00 && lba_high == 0x00 {
        Some(AtaDeviceType::Pata)
    } else if lba_mid == 0x14 && lba_high == 0xEB {
        Some(AtaDeviceType::PataPi)
    } else if lba_mid == 0x3C && lba_high == 0xC3 {
        Some(AtaDeviceType::Sata)
    } else if lba_mid == 0x69 && lba_high == 0x96 {
        Some(AtaDeviceType::SataPi)
    } else {
        None
    }
}

impl AtaDeviceType {
    /// Determines the device type from the values of the LBA-mid and
    /// LBA-high registers after an identify command has been issued.
    pub fn from_lba(lba_mid: u8, lba_high: u8) -> (r: Option<AtaDeviceType>)
        ensures
            r == device_type_of(lba_mid, lba_high),
    {
        match (lba_mid, lba_high) {
            (0x00, 0x00) => Some(AtaDeviceType::Pata),
            (0x14, 0xEB) => Some(AtaDeviceType::PataPi),
            (0x3C, 0xC3) => Some(AtaDeviceType::Sata),
            (0x69, 0x96) => Some(AtaDeviceType::SataPi),
            _ => None,
        }
    }
}

/// The two drive positions that share one bus; the drive-select register's
/// bit 4 picks between them.
#[derive(Clone, Copy, Debug, PartialEq, Eq, Structural)]
pub enum BusDriveSelect {
    Master,
    Slave,
}

/// The smaller of two lengths.
pub open spec fn nat_min(a: nat, b: nat) -> nat {
    if a <= b {
        a
    } else {
        b
    }
}

/// The first sector a transfer at byte `offset` touches.
pub open spec fn start_lba_of(offset: nat) -> nat {
    offset / 512
}

/// One past the last sector a transfer of `length` bytes at `offset`
/// touches, clipped to the drive's capacity.
pub open spec fn end_lba_of(offset: nat, length: nat, sectors: nat) -> nat {
    nat_min(sectors, (offset + length + 511) / 512)
}

/// How many sectors the transfer spans.
pub open spec fn span_of(offset: nat, length: nat, sectors: nat) -> int {
    end_lba_of(offset, length, sectors) - start_lba_of(offset)
}

/// How many bytes of a transfer of `length` bytes at byte `offset` lie
/// within a drive of `sectors` sectors: the whole length, unless the
/// drive's capacity cuts it short.
pub open spec fn reachable_len(offset: nat, length: nat, sectors: nat) -> nat {
    nat_min(length, (sectors * 512 - offset) as nat)
}

/// A single ATA drive, either a master or a slave, which sits on one of
/// the two buses of an IDE controller.
///
/// A constructed drive always satisfies [`AtaDrive::wf`]: the device
/// answered the identify exchange as a plain ATA drive, supports LBA
/// addressing, reported the capacity the decoded record shows, and is
/// idle between operations.
pub struct AtaDrive<P: AtaPorts> {
    /// The register file of this drive's position on its bus.
    ports: P,
    /// The decoded identify record captured at construction.
    identify_data: AtaIdentifyData,
    /// Whether this drive is the master or the slave on its bus.
    master_slave: BusDriveSelect,
}

impl<P: AtaPorts> AtaDrive<P> {
    /// The model of the device behind this drive's registers.
    pub closed spec fn dev(self) -> AtaDeviceModel {
        self.ports.dev()
    }

    /// The bytes stored on the drive.
    pub closed spec fn contents(self) -> Seq<u8> {
        self.ports.dev().disk
    }

    /// The drive's capacity in sectors.
    pub closed spec fn spec_size_in_sectors(self) -> nat {
        self.ports.dev().sectors
    }

    /// The drive's capacity in bytes.
    pub open spec fn spec_size_in_bytes(self) -> nat {
        self.spec_size_in_sectors() * 512
    }

    /// The decoded identify record.
    pub closed spec fn record(self) -> AtaIdentifyData {
        self.identify_data
    }

    /// True if this drive occupies the master position.
    pub closed spec fn spec_is_master(self) -> bool {
        self.master_slave is Master
    }

    /// The drive's invariant: the device is a well-formed, idle, plain ATA
    /// device with LBA support, on the position this drive selects, and
    /// the stored record is the decoding of the device's identify
    /// response.
    pub closed spec fn wf(self) -> bool {
        &&& self.ports.dev().wf()
        &&& self.ports.dev().kind is Ata
        &&& self.ports.dev().phase is Idle
        &&& self.ports.dev().slave == (self.master_slave is Slave)
        &&& parses(self.ports.dev().identify, self.identify_data)
        &&& id_lba_supported(self.ports.dev().identify)
    }

    /// The capacity facts every well-formed drive provides: the byte size
    /// is the sector count times the sector size and fits in a `usize`.
    pub proof fn lemma_wf_capacity(self)
        requires
            self.wf(),
        ensures
            self.spec_size_in_bytes() == self.spec_size_in_sectors() * 512,
            self.spec_size_in_bytes() <= usize::MAX,
            self.contents().len() == self.spec_size_in_bytes(),
            self.spec_size_in_sectors() == id_sector_count(self.dev().identify),
    {
    }

    /// Reads the status register, preceded by four discarded reads of the
    /// alternate-status register: each read takes about 100ns, so the
    /// four discards give the settling delay the protocol requires.
    fn status(ports: &P) -> (r: AtaStatus)
        ensures
            r.bits == ports.dev().status_byte(),
    {
        let _ = ports.read_alternate_status();
        let _ = ports.read_alternate_status();
        let _ = ports.read_alternate_status();
        let _ = ports.read_alternate_status();
        AtaStatus::from_bits(ports.read_status())
    }

    /// Reads the error register and decodes it, for callers that want the
    /// detail behind a [`DriveError::HardwareError`].
    pub fn error(&self) -> (r: AtaError)
        ensures
            r.bits == self.dev().error_byte(),
    {
        AtaError::from_bits(self.ports.read_error())
    }

    /// Returns `true` if this drive is the master on its bus.
    pub fn is_master(&self) -> (r: bool)
        ensures
            r == self.spec_is_master(),
    {
        match self.master_slave {
            BusDriveSelect::Master => true,
            BusDriveSelect::Slave => false,
        }
    }

    /// Waits until the device is ready to transfer data: busy clear and
    /// data-request set. Intended for use after a command has been
    /// issued. Fails as soon as the status shows an error or write-fault
    /// condition.
    #[verifier::loop_isolation(false)]
    fn wait_for_data_ready(ports: &P) -> (r: Result<(), ()>)
        requires
            ports.dev().wf(),
            ports.dev().kind is Ata,
            !(ports.dev().phase is Idle),
        ensures
            r is Ok ==> (ports.dev().phase is DataIn || ports.dev().phase is DataOut),
            r is Err ==> ports.dev().phase is Faulted,
    {
        loop
            decreases 0int,
        {
            let status = Self::status(ports);
            if status.error() || status.drive_write_fault() {
                return Err(());
            }
            if !status.busy() {
                if status.data_request_ready() {
                    return Ok(());
                }
            }
        }
    }

    /// Waits until the device is fully idle: busy clear and data-request
    /// clear, so a new command may be issued. Fails as soon as the status
    /// shows an error or write-fault condition.
    #[verifier::loop_isolation(false)]
    fn wait_for_data_done(ports: &P) -> (r: Result<(), ()>)
        requires
            ports.dev().wf(),
            ports.dev().phase is Idle || ports.dev().phase is Faulted,
        ensures
            r is Ok ==> ports.dev().phase is Idle,
            r is Err ==> ports.dev().phase is Faulted,
    {
        loop
            decreases 0int,
        {
            let status = Self::status(ports);
            if status.error() || status.drive_write_fault() {
                return Err(());
            }
            if !status.busy() {
                if !status.data_request_ready() {
                    return Ok(());
                }
            }
        }
    }
}

impl<P: AtaPorts> AtaDrive<P> {
    /// Reads exactly one sector's 256 data words from the data register.
    ///
    /// The device must be in a data-in phase with at least one full
    /// sector still queued; a full sector must always be drained for the
    /// drive to keep working properly, even when the caller needs fewer
    /// bytes.
    fn internal_read_sector(ports: &mut P) -> (r: Result<Vec<u8>, DriveError>)
        requires
            old(ports).dev().wf(),
            old(ports).dev().kind is Ata,
            old(ports).dev().phase is DataIn,
            old(ports).dev().data_words().len() >= 256,
        ensures
            final(ports).dev().wf(),
            final(ports).dev().kind == old(ports).dev().kind,
            final(ports).dev().slave == old(ports).dev().slave,
            final(ports).dev().sectors == old(ports).dev().sectors,
            final(ports).dev().disk == old(ports).dev().disk,
            final(ports).dev().identify == old(ports).dev().identify,
            final(ports).dev().phase == (if old(ports).dev().data_words().len() == 256 {
                DevicePhase::Idle
            } else {
                DevicePhase::DataIn { words: old(ports).dev().data_words().skip(256) }
            }),
            (r matches Ok(v) && v@.len() == 512 && (forall|k: int|
                0 <= k < 512 ==> v@[k] == word_byte(old(ports).dev().data_words(), k))),
    {
        match Self::wait_for_data_ready(ports) {
            Ok(()) => {},
            Err(()) => {
                return Err(DriveError::HardwareError);
            },
        }
        let ghost dev0 = ports.dev();
        let ghost words0 = dev0.data_words();
        proof {
            assert(words0.skip(0) =~= words0);
        }
        let mut data: Vec<u8> = Vec::new();
        let mut i: usize = 0;
        while i < 256
            invariant
                0 <= i <= 256,
                data@.len() == 2 * i,
                ports.dev().wf(),
                ports.dev().kind == dev0.kind,
                ports.dev().slave == dev0.slave,
                ports.dev().sectors == dev0.sectors,
                ports.dev().disk == dev0.disk,
                ports.dev().identify == dev0.identify,
                dev0.kind is Ata,
                words0.len() >= 256,
                i < 256 ==> ports.dev().phase == (DevicePhase::DataIn {
                    words: words0.skip(i as int),
                }),
                i == 256 ==> ports.dev().phase == (if words0.len() == 256 {
                    DevicePhase::Idle
                } else {
                    DevicePhase::DataIn { words: words0.skip(256) }
                }),
                forall|k: int| 0 <= k < 2 * i ==> data@[k] == word_byte(words0, k),
            decreases 256 - i,
        {
            proof {
                assert(words0.skip(i as int).len() == words0.len() - i >= 1);
            }
            let w = ports.read_data();
            proof {
                assert(words0.skip(i as int)[0] == words0[i as int]);
            }
            data.push((w % 256) as u8);
            data.push((w / 256) as u8);
            proof {
                assert(data@[2 * i as int] == word_byte(words0, 2 * i as int));
                assert(data@[2 * i as int + 1] == word_byte(words0, 2 * i as int + 1));
            }
            i = i + 1;
            proof {
                if i < 256 {
                    assert(words0.skip(i - 1).skip(1) =~= words0.skip(i as int));
                } else if words0.len() > 256 {
                    assert(words0.skip(255).skip(1) =~= words0.skip(256));
                }
            }
        }
        Ok(data)
    }

    /// Issues an identify command to probe the device at this position
    /// and capture its characteristics.
    ///
    /// Fails with [`DriveError::NotPresent`] when the status register
    /// reads as all zeroes, with [`DriveError::NotAta`] if the device
    /// raises a non-ATA signature while still busy, and with
    /// [`DriveError::UnsupportedDevice`] for every signature pair other
    /// than the plain ATA one.
    #[verifier::loop_isolation(false)]
    fn identify_drive(ports: &mut P, which: BusDriveSelect) -> (r: Result<
        AtaIdentifyData,
        DriveError,
    >)
        requires
            old(ports).dev().wf(),
            old(ports).dev().phase is Idle,
            old(ports).dev().slave == (which is Slave),
        ensures
            final(ports).dev().wf(),
            final(ports).dev().kind == old(ports).dev().kind,
            final(ports).dev().slave == old(ports).dev().slave,
            final(ports).dev().sectors == old(ports).dev().sectors,
            final(ports).dev().disk == old(ports).dev().disk,
            final(ports).dev().identify == old(ports).dev().identify,
            final(ports).dev().phase is Idle,
            r is Ok <==> old(ports).dev().kind is Ata,
            match r {
                Ok(d) => parses(old(ports).dev().identify, d),
                Err(e) => {
                    &&& (e == DriveError::NotPresent <==> old(ports).dev().kind is Absent)
                    &&& (e == DriveError::UnsupportedDevice <==> old(ports).dev().kind is Other)
                },
            },
    {
        match Self::wait_for_data_done(ports) {
            Ok(()) => {},
            Err(()) => {
                return Err(DriveError::HardwareError);
            },
        }
        let ms: u8 = match which {
            BusDriveSelect::Master => 0x00,
            BusDriveSelect::Slave => 0x10,
        };
        ports.write_drive_select(0xA0 + ms);
        ports.write_sector_count(0);
        ports.write_lba_high(0);
        ports.write_lba_mid(0);
        ports.write_lba_low(0);
        ports.write_command(CMD_IDENTIFY_DEVICE);

        // A status of all zeroes means no drive is attached there.
        if Self::status(ports).is_empty() {
            return Err(DriveError::NotPresent);
        }
        // Poll until the busy flag clears; LBA-mid or LBA-high turning
        // non-zero while still busy is the signature of a non-ATA device.
        loop
            invariant
                !(ports.dev().phase is Faulted),
            decreases 0int,
        {
            let status = Self::status(ports);
            if !status.busy() {
                break;
            }
            if ports.read_lba_mid() != 0 || ports.read_lba_high() != 0 {
                return Err(DriveError::NotAta);
            }
        }
        // Classify the device by its signature pair; only plain ATA is
        // supported.
        match AtaDeviceType::from_lba(ports.read_lba_mid(), ports.read_lba_high()) {
            Some(AtaDeviceType::Pata) => {},
            Some(AtaDeviceType::PataPi) => {
                return Err(DriveError::UnsupportedDevice);
            },
            Some(AtaDeviceType::Sata) => {
                return Err(DriveError::UnsupportedDevice);
            },
            Some(AtaDeviceType::SataPi) => {
                return Err(DriveError::UnsupportedDevice);
            },
            None => {
                return Err(DriveError::UnsupportedDevice);
            },
        }
        // The device accepted the command: read the one-sector response.
        let arr = match Self::internal_read_sector(ports) {
            Ok(a) => a,
            Err(e) => {
                return Err(e);
            },
        };
        match Self::wait_for_data_done(ports) {
            Ok(()) => {},
            Err(()) => {
                return Err(DriveError::HardwareError);
            },
        }
        proof {
            crate::device::lemma_words_roundtrip(ports.dev().identify);
            assert(arr@ =~= ports.dev().identify);
        }
        Ok(AtaIdentifyData::new(arr))
    }

    /// Looks for an ATA drive on the register file `ports`, which must
    /// address the `which` position of its bus, and if one is found,
    /// probes and initializes it.
    ///
    /// Beyond the probe failures of the identify exchange, construction
    /// fails with [`DriveError::ChsUnsupported`] when the device does not
    /// support LBA addressing, since the ancient cylinder-head-sector
    /// scheme is not supported here.
    pub fn new(ports: P, which: BusDriveSelect) -> (r: Result<AtaDrive<P>, DriveError>)
        requires
            ports.dev().wf(),
            ports.dev().phase is Idle,
            ports.dev().slave == (which is Slave),
        ensures
            r is Ok <==> (ports.dev().kind is Ata && id_lba_supported(ports.dev().identify)),
            match r {
                Ok(d) => {
                    &&& d.wf()
                    &&& d.contents() == ports.dev().disk
                    &&& d.spec_size_in_sectors() == ports.dev().sectors
                    &&& d.spec_is_master() == (which is Master)
                    &&& parses(ports.dev().identify, d.record())
                },
                Err(e) => {
                    &&& (e == DriveError::NotPresent <==> ports.dev().kind is Absent)
                    &&& (e == DriveError::UnsupportedDevice <==> ports.dev().kind is Other)
                    &&& (e == DriveError::ChsUnsupported <==> (ports.dev().kind is Ata
                        && !id_lba_supported(ports.dev().identify)))
                },
            },
    {
        let mut ports = ports;
        // Clear the control register once before the first access.
        ports.write_control(0);
        let identify_data = match Self::identify_drive(&mut ports, which) {
            Ok(d) => d,
            Err(e) => {
                return Err(e);
            },
        };
        // Check that the drive supports LBA; the ancient CHS addressing
        // scheme is rejected. LBA support is bit 9 of the capabilities.
        if (identify_data.capabilities / 0x200) % 2 == 0 {
            return Err(DriveError::ChsUnsupported);
        }
        Ok(AtaDrive { ports, identify_data, master_slave: which })
    }
}

impl<P: AtaPorts> AtaDrive<P> {
    /// Returns the number of sectors in this drive: the 28-bit field of
    /// the identify record when it is non-zero, the 48-bit field
    /// otherwise.
    pub fn size_in_sectors(&self) -> (r: usize)
        requires
            self.wf(),
        ensures
            r == self.spec_size_in_sectors(),
            self.record().user_addressable_sectors != 0 ==> r
                == self.record().user_addressable_sectors,
            self.record().user_addressable_sectors == 0 ==> r == self.record().max_48_bit_lba,
    {
        proof {
            assert(self.dev().sectors <= self.dev().sectors * 512);
        }
        if self.identify_data.user_addressable_sectors != 0 {
            self.identify_data.user_addressable_sectors as usize
        } else {
            self.identify_data.max_48_bit_lba as usize
        }
    }

    /// Returns the size of this drive in bytes: its sector count times
    /// the sector size.
    pub fn size_in_bytes(&self) -> (r: usize)
        requires
            self.wf(),
        ensures
            r == self.spec_size_in_bytes(),
            r == self.spec_size_in_sectors() * 512,
    {
        self.size_in_sectors() * SECTOR_SIZE_IN_BYTES
    }

    /// Translates a byte range into sector bounds.
    ///
    /// For an `offset` within the drive, returns the first sector of the
    /// transfer (`offset / 512`), one past its last sector (the requested
    /// end rounded up to a whole sector, clipped to the drive's
    /// capacity), and the offset into the first sector at which the range
    /// starts (`offset % 512`). The number of sectors to transfer is the
    /// difference of the two bounds, and the first never exceeds the
    /// second. Fails with [`DriveError::OutOfBounds`] if and only if
    /// `offset` lies beyond the drive's capacity.
    pub fn lba_bounds(&self, offset: usize, length: usize) -> (r: Result<
        (u64, u64, usize),
        DriveError,
    >)
        requires
            self.wf(),
            offset + length + 511 <= usize::MAX,
        ensures
            offset > self.spec_size_in_bytes() <==> r is Err,
            offset > self.spec_size_in_bytes() ==> r == Err::<(u64, u64, usize), DriveError>(
                DriveError::OutOfBounds,
            ),
            offset <= self.spec_size_in_bytes() ==> r == Ok::<(u64, u64, usize), DriveError>(
                (
                    start_lba_of(offset as nat) as u64,
                    end_lba_of(offset as nat, length as nat, self.spec_size_in_sectors()) as u64,
                    (offset % 512) as usize,
                ),
            ),
            offset <= self.spec_size_in_bytes() ==> start_lba_of(offset as nat) <= end_lba_of(
                offset as nat,
                length as nat,
                self.spec_size_in_sectors(),
            ),
    {
        let size_in_bytes = self.size_in_bytes();
        if offset > size_in_bytes {
            return Err(DriveError::OutOfBounds);
        }
        let starting_lba = (offset / SECTOR_SIZE_IN_BYTES) as u64;
        let offset_remainder = offset % SECTOR_SIZE_IN_BYTES;
        let sectors = self.size_in_sectors() as u64;
        // Round the end of the range up to the next sector boundary.
        let rounded_end = ((offset + length + (SECTOR_SIZE_IN_BYTES - 1))
            / SECTOR_SIZE_IN_BYTES) as u64;
        let ending_lba = if sectors < rounded_end {
            sectors
        } else {
            rounded_end
        };
        proof {
            vstd::arithmetic::div_mod::lemma_div_is_ordered(
                offset as int,
                offset + length + 511,
                512,
            );
            vstd::arithmetic::div_mod::lemma_div_is_ordered(
                offset as int,
                (self.spec_size_in_sectors() * 512) as int,
                512,
            );
            vstd::arithmetic::div_mod::lemma_div_multiples_vanish(
                self.spec_size_in_sectors() as int,
                512,
            );
        }
        Ok((starting_lba, ending_lba, offset_remainder))
    }
}

/// Splitting a 28-bit address into its register bytes and reassembling
/// them through the register decoding gives the address back.
proof fn lemma_lba28_digits(v: u64)
    requires
        v <= 0xFFFFFFF,
    ensures
        v / 0x1000000 < 16,
        (v / 0x1000000) * 0x1000000 + ((v / 0x10000) % 0x100) * 0x10000 + ((v / 0x100) % 0x100)
            * 0x100 + (v % 0x100) == v,
{
    assert(v / 0x1000000 < 16 && (v / 0x1000000) * 0x1000000 + ((v / 0x10000) % 0x100) * 0x10000 + (
    (v / 0x100) % 0x100) * 0x100 + (v % 0x100) == v) by (bit_vector)
        requires
            v <= 0xFFFFFFF,
    ;
}

/// Splitting a 48-bit address into its six register bytes and
/// reassembling them through the register decoding gives the address
/// back.
proof fn lemma_lba48_digits(v: u64)
    requires
        v < 0x1000000000000,
    ensures
        v / 0x10000000000 < 256,
        (v / 0x10000000000) * 0x10000000000 + ((v / 0x100000000) % 0x100) * 0x100000000 + ((v
            / 0x1000000) % 0x100) * 0x1000000 + ((v / 0x10000) % 0x100) * 0x10000 + ((v / 0x100)
            % 0x100) * 0x100 + (v % 0x100) == v,
{
    assert(v / 0x10000000000 < 256 && (v / 0x10000000000) * 0x10000000000 + ((v / 0x100000000)
        % 0x100) * 0x100000000 + ((v / 0x1000000) % 0x100) * 0x1000000 + ((v / 0x10000) % 0x100)
        * 0x10000 + ((v / 0x100) % 0x100) * 0x100 + (v % 0x100) == v) by (bit_vector)
        requires
            v < 0x1000000000000,
    ;
}

impl<P: AtaPorts> AtaDrive<P> {
    /// Latches the drive-select, sector-count, and address registers for
    /// a transfer of `sector_count` sectors starting at `lba_start`, then
    /// issues the matching read or write command.
    ///
    /// A start within the 28-bit range uses the 28-bit command variant,
    /// with bits 24..28 of the address in the low nibble of drive-select.
    /// Beyond it, the 48-bit variant is used, and the high-order bytes of
    /// the sector count and address are written strictly before the
    /// low-order bytes, as the device's two-deep register latches
    /// require.
    fn issue_transfer_command(
        ports: &mut P,
        which: BusDriveSelect,
        lba_start: u64,
        sector_count: u64,
        write_mode: bool,
    )
        requires
            old(ports).dev().wf(),
            old(ports).dev().kind is Ata,
            old(ports).dev().phase is Idle,
            old(ports).dev().slave == (which is Slave),
            1 <= sector_count <= 255,
            lba_start + sector_count <= old(ports).dev().sectors,
        ensures
            final(ports).dev().wf(),
            final(ports).dev().kind == old(ports).dev().kind,
            final(ports).dev().slave == old(ports).dev().slave,
            final(ports).dev().sectors == old(ports).dev().sectors,
            final(ports).dev().disk == old(ports).dev().disk,
            final(ports).dev().identify == old(ports).dev().identify,
            final(ports).dev().selected(),
            !write_mode ==> final(ports).dev().phase == (DevicePhase::DataIn {
                words: word_seq_of(
                    old(ports).dev().disk.subrange(
                        (lba_start * 512) as int,
                        (lba_start * 512 + sector_count * 512) as int,
                    ),
                ),
            }),
            write_mode ==> final(ports).dev().phase == (DevicePhase::DataOut {
                lba: lba_start as nat,
                sectors_total: sector_count as nat,
                got: Seq::empty(),
            }),
    {
        let ms: u8 = match which {
            BusDriveSelect::Master => 0x00,
            BusDriveSelect::Slave => 0x10,
        };
        if lba_start > MAX_LBA_28_VALUE {
            // 48-bit addressing. The high bytes of the sector count and
            // address must be written before the low bytes.
            proof {
                lemma_lba48_digits(lba_start);
            }
            ports.write_drive_select(0x40 + ms);
            ports.write_sector_count((sector_count / 0x100) as u8);
            ports.write_lba_high((lba_start / 0x10000000000) as u8);
            ports.write_lba_mid(((lba_start / 0x100000000) % 0x100) as u8);
            ports.write_lba_low(((lba_start / 0x1000000) % 0x100) as u8);
            ports.write_sector_count(sector_count as u8);
            ports.write_lba_high(((lba_start / 0x10000) % 0x100) as u8);
            ports.write_lba_mid(((lba_start / 0x100) % 0x100) as u8);
            ports.write_lba_low((lba_start % 0x100) as u8);
            proof {
                let s: int = if which is Slave {
                    1
                } else {
                    0
                };
                vstd::arithmetic::div_mod::lemma_fundamental_div_mod_converse(
                    0x40 + ms as int,
                    16,
                    4 + s,
                    0,
                );
                assert(ports.dev().selected());
                assert(lba48_of(ports.dev().regs) == lba_start as nat);
                assert(count48_of(ports.dev().regs) == sector_count as nat);
            }
            if write_mode {
                ports.write_command(CMD_WRITE_PIO_EXT);
            } else {
                ports.write_command(CMD_READ_PIO_EXT);
            }
        } else {
            // 28-bit addressing: bits 24..28 of the address go in the low
            // nibble of the drive-select register.
            proof {
                lemma_lba28_digits(lba_start);
            }
            let nibble = (lba_start / 0x1000000) as u8;
            ports.write_drive_select(0xE0 + ms + nibble);
            ports.write_sector_count(sector_count as u8);
            ports.write_lba_high(((lba_start / 0x10000) % 0x100) as u8);
            ports.write_lba_mid(((lba_start / 0x100) % 0x100) as u8);
            ports.write_lba_low((lba_start % 0x100) as u8);
            proof {
                let s: int = if which is Slave {
                    1
                } else {
                    0
                };
                vstd::arithmetic::div_mod::lemma_fundamental_div_mod_converse(
                    0xE0 + ms as int + nibble as int,
                    16,
                    14 + s,
                    nibble as int,
                );
                assert(ports.dev().selected());
                assert(lba28_of(ports.dev().regs) == lba_start as nat);
                assert(count28_of(ports.dev().regs) == sector_count as nat);
            }
            if write_mode {
                ports.write_command(CMD_WRITE_PIO);
            } else {
                ports.write_command(CMD_READ_PIO);
            }
        }
    }
}


/// One byte of the word stream of a read command: byte `m` of sector `i`
/// of the queued range is byte `lba * 512 + i * 512 + m` of the drive.
proof fn lemma_window_byte(disk: Seq<u8>, lba: int, count: int, i: int, m: int)
    requires
        0 <= lba,
        1 <= count,
        0 <= i < count,
        lba * 512 + count * 512 <= disk.len(),
        0 <= m < 512,
    ensures
        word_byte(
            word_seq_of(disk.subrange(lba * 512, lba * 512 + count * 512)).skip(i * 256),
            m,
        ) == disk[lba * 512 + i * 512 + m],
{
    let sub = disk.subrange(lba * 512, lba * 512 + count * 512);
    let words = word_seq_of(sub);
    assert(sub.len() == count * 512);
    vstd::arithmetic::div_mod::lemma_div_multiples_vanish(count * 256, 2);
    assert(words.len() == count * 256);
    let c = i * 256;
    assert(words.skip(c)[m / 2] == words[c + m / 2]);
    assert(words[c + m / 2] == le16(sub, 2 * (c + m / 2)));
    let j = 2 * (c + m / 2);
    let lo = sub[j];
    let hi = sub[j + 1];
    assert(lo as nat + 256 * (hi as nat) <= 65535);
    assert(words[c + m / 2] as nat == lo as nat + 256 * (hi as nat));
    vstd::arithmetic::div_mod::lemma_fundamental_div_mod(m, 2);
    if m % 2 == 0 {
        assert(j == i * 512 + m);
    } else {
        assert(j + 1 == i * 512 + m);
    }
}

/// A sector handed out during a multi-sector read holds exactly the
/// drive's bytes for that sector of the range.
proof fn lemma_sector_from_disk(
    disk: Seq<u8>,
    lba_start: int,
    sector_count: int,
    i: int,
    sector: Seq<u8>,
)
    requires
        0 <= lba_start,
        1 <= sector_count,
        0 <= i < sector_count,
        lba_start * 512 + sector_count * 512 <= disk.len(),
        sector.len() == 512,
        forall|m: int|
            0 <= m < 512 ==> sector[m] == word_byte(
                word_seq_of(
                    disk.subrange(lba_start * 512, lba_start * 512 + sector_count * 512),
                ).skip(i * 256),
                m,
            ),
    ensures
        forall|m: int| 0 <= m < 512 ==> sector[m] == disk[lba_start * 512 + i * 512 + m],
{
    assert forall|m: int| 0 <= m < 512 implies sector[m] == disk[lba_start * 512 + i * 512
        + m] by {
        lemma_window_byte(disk, lba_start, sector_count, i, m);
    }
}

impl<P: AtaPorts> AtaDrive<P> {
    /// Copies `n` bytes of `sector`, starting at `src`, into `buffer`
    /// starting at `dest`; every other byte of `buffer` is untouched.
    fn copy_into(buffer: &mut Vec<u8>, dest: usize, sector: &Vec<u8>, src: usize, n: usize)
        requires
            dest + n <= old(buffer)@.len(),
            src + n <= sector@.len(),
            old(buffer)@.len() <= usize::MAX,
            sector@.len() <= usize::MAX,
        ensures
            final(buffer)@.len() == old(buffer)@.len(),
            forall|j: int| dest <= j < dest + n ==> final(buffer)@[j] == sector@[src + (j - dest)],
            forall|j: int|
                (0 <= j < dest || dest + n <= j < old(buffer)@.len()) ==> final(buffer)@[j] == old(
                buffer,
                )@[j],
    {
        let mut k: usize = 0;
        while k < n
            invariant
                0 <= k <= n,
                buffer@.len() == old(buffer)@.len(),
                dest + n <= old(buffer)@.len(),
                src + n <= sector@.len(),
                old(buffer)@.len() <= usize::MAX,
                sector@.len() <= usize::MAX,
                forall|j: int| dest <= j < dest + k ==> buffer@[j] == sector@[src + (j - dest)],
                forall|j: int|
                    (0 <= j < dest || dest + k <= j < old(buffer)@.len()) ==> buffer@[j] == old(
                    buffer,
                    )@[j],
            decreases n - k,
        {
            buffer.set(dest + k, sector[src + k]);
            k = k + 1;
        }
    }
}

impl<P: AtaPorts> AtaDrive<P> {
    /// Reads data from this drive, starting at byte `offset` into the
    /// drive, into `buffer`; the buffer's length determines the most
    /// bytes that will be read.
    ///
    /// Returns the number of bytes read and copied into `buffer`: the
    /// whole buffer, unless the drive's capacity cuts the range short.
    /// Whole sectors are always transferred; the copy out of the first
    /// and last sectors honours the byte bounds. Fails with
    /// [`DriveError::OutOfBounds`] when `offset` lies beyond the drive,
    /// and with [`DriveError::TransferTooLarge`] when the sector span
    /// exceeds the identify record's max-transfer field; both checks
    /// precede any device access, and for an in-bounds, in-size request
    /// the read succeeds.
    #[verifier::rlimit(100)]
    pub fn read_pio(&mut self, buffer: &mut Vec<u8>, offset: usize) -> (r: Result<
        usize,
        DriveError,
    >)
        requires
            old(self).wf(),
            offset + old(buffer)@.len() + 511 <= usize::MAX,
        ensures
            final(self).wf(),
            final(self).contents() == old(self).contents(),
            final(self).spec_size_in_sectors() == old(self).spec_size_in_sectors(),
            final(self).record() == old(self).record(),
            final(self).spec_is_master() == old(self).spec_is_master(),
            final(buffer)@.len() == old(buffer)@.len(),
            ({
                let size = old(self).spec_size_in_bytes();
                let sectors = old(self).spec_size_in_sectors();
                let len = old(buffer)@.len();
                let span = span_of(offset as nat, len, sectors);
                let max = old(self).record().max_blocks_per_transfer as int;
                &&& (offset > size ==> r == Err::<usize, DriveError>(DriveError::OutOfBounds)
                    && final(buffer)@ == old(buffer)@ && final(self).dev() == old(self).dev())
                &&& (offset <= size && span > max ==> r == Err::<usize, DriveError>(
                    DriveError::TransferTooLarge,
                ) && final(buffer)@ == old(buffer)@ && final(self).dev() == old(self).dev())
                &&& (offset <= size && span <= max ==> {
                    let n = reachable_len(offset as nat, len, sectors);
                    &&& r == Ok::<usize, DriveError>(n as usize)
                    &&& (span == 0 ==> final(buffer)@ == old(buffer)@ && final(self).dev()
                        == old(self).dev())
                    &&& (forall|k: int|
                        0 <= k < n ==> final(buffer)@[k] == old(self).contents()[offset + k])
                    &&& (forall|k: int| n <= k < len ==> final(buffer)@[k] == old(buffer)@[k])
                })
            }),
    {
        let ghost buf0 = buffer@;
        let ghost sectors_g = self.spec_size_in_sectors();
        // Translate the byte range into sector bounds and the offset into
        // the first sector.
        let (lba_start, lba_end, offset_remainder) = match self.lba_bounds(offset, buffer.len()) {
            Ok(t) => t,
            Err(e) => {
                return Err(e);
            },
        };
        let sector_count = lba_end - lba_start;
        if sector_count > self.identify_data.max_blocks_per_transfer as u64 {
            return Err(DriveError::TransferTooLarge);
        }
        proof {
            vstd::arithmetic::div_mod::lemma_fundamental_div_mod(offset as int, 512);
            vstd::arithmetic::div_mod::lemma_fundamental_div_mod(
                offset + buf0.len() + 511,
                512,
            );
        }
        if sector_count == 0 {
            // The range covers no sectors: either the buffer is empty or
            // the offset sits exactly at the end of the drive. Nothing to
            // transfer, and the device is not touched.
            return Ok(0);
        }
        match Self::wait_for_data_done(&self.ports) {
            Ok(()) => {},
            Err(()) => {
                return Err(DriveError::HardwareError);
            },
        }
        Self::issue_transfer_command(
            &mut self.ports,
            self.master_slave,
            lba_start,
            sector_count,
            false,
        );
        match Self::wait_for_data_ready(&self.ports) {
            Ok(()) => {},
            Err(()) => {
                return Err(DriveError::HardwareError);
            },
        }
        let ghost drv0 = *self;
        let ghost dev1 = self.ports.dev();
        let ghost words_all = dev1.data_words();
        let ghost disk0 = dev1.disk;
        proof {
            vstd::arithmetic::div_mod::lemma_div_multiples_vanish(sector_count * 256, 2);
            assert(words_all.len() == (sector_count * 512) as nat / 2);
            assert(words_all.len() == sector_count * 256);
            assert(words_all.skip(0) =~= words_all);
        }
        // Pull the data one sector at a time; only the requested byte
        // range of each sector is copied out.
        let mut src_offset: usize = offset_remainder;
        let mut dest_offset: usize = 0;
        let mut cur = lba_start;
        while cur < lba_end
            invariant
                self.ports.dev().wf(),
                lba_start <= cur <= lba_end,
                self.ports.dev().kind == dev1.kind,
                self.ports.dev().slave == dev1.slave,
                self.ports.dev().sectors == dev1.sectors,
                self.ports.dev().disk == disk0,
                self.ports.dev().identify == dev1.identify,
                self.identify_data == drv0.identify_data,
                self.master_slave == drv0.master_slave,
                words_all.len() == sector_count * 256,
                lba_end - lba_start == sector_count,
                lba_end <= dev1.sectors,
                disk0.len() == dev1.sectors * 512,
                offset == lba_start * 512 + offset_remainder,
                offset_remainder < 512,
                words_all == word_seq_of(
                    disk0.subrange(
                        (lba_start * 512) as int,
                        (lba_start * 512 + sector_count * 512) as int,
                    ),
                ),
                cur < lba_end ==> self.ports.dev().phase == (DevicePhase::DataIn {
                    words: words_all.skip((cur - lba_start) * 256),
                }),
                cur == lba_end ==> self.ports.dev().phase is Idle,
                src_offset == (if cur == lba_start {
                    offset_remainder as int
                } else {
                    0int
                }),
                dest_offset == (if cur == lba_start {
                    0int
                } else {
                    nat_min(buf0.len(), ((cur - lba_start) * 512 - offset_remainder) as nat) as int
                }),
                buffer@.len() == buf0.len(),
                forall|k: int| 0 <= k < dest_offset ==> buffer@[k] == disk0[offset + k],
                forall|k: int| dest_offset <= k < buf0.len() ==> buffer@[k] == buf0[k],
            decreases lba_end - cur,
        {
            proof {
                assert(words_all.skip((cur - lba_start) * 256).len() == words_all.len() - (cur
                    - lba_start) * 256);
            }
            let sector = match Self::internal_read_sector(&mut self.ports) {
                Ok(s) => s,
                Err(e) => {
                    return Err(e);
                },
            };
            proof {
                lemma_sector_from_disk(
                    disk0,
                    lba_start as int,
                    sector_count as int,
                    cur - lba_start,
                    sector@,
                );
            }
            // Clip the copy so neither the sector nor the buffer is
            // overrun.
            let avail = SECTOR_SIZE_IN_BYTES - src_offset;
            let room = buffer.len() - dest_offset;
            let bytes_to_copy = if avail < room {
                avail
            } else {
                room
            };
            Self::copy_into(buffer, dest_offset, &sector, src_offset, bytes_to_copy);
            proof {
                let i0 = cur - lba_start;
                assert forall|k2: int|
                    dest_offset <= k2 < dest_offset + bytes_to_copy implies buffer@[k2] == disk0[
                offset + k2] by {
                    assert(buffer@[k2] == sector@[src_offset + (k2 - dest_offset)]);
                    if i0 == 0 {
                        assert(lba_start * 512 + src_offset == offset + dest_offset);
                    } else {
                        assert(dest_offset == i0 * 512 - offset_remainder);
                        assert(lba_start * 512 + i0 * 512 + src_offset == offset + dest_offset);
                    }
                }
                assert(dest_offset + bytes_to_copy == nat_min(
                    buf0.len(),
                    (((cur + 1) - lba_start) * 512 - offset_remainder) as nat,
                ));
            }
            dest_offset = dest_offset + bytes_to_copy;
            src_offset = 0;
            cur = cur + 1;
            proof {
                let i = cur - lba_start;
                if cur < lba_end {
                    assert(words_all.skip((i - 1) * 256).skip(256) =~= words_all.skip(i * 256));
                } else {
                    assert(words_all.skip((i - 1) * 256).len() == 256);
                }
            }
        }
        match Self::wait_for_data_done(&self.ports) {
            Ok(()) => {},
            Err(()) => {
                return Err(DriveError::HardwareError);
            },
        }
        proof {
            assert(dest_offset == reachable_len(offset as nat, buf0.len(), sectors_g));
        }
        Ok(dest_offset)
    }
}

/// Extending a write's word stream by one word extends the decoded word
/// prefix of the buffer by its next little-endian word.
proof fn lemma_word_prefix_push(b: Seq<u8>, j: int)
    requires
        0 <= j,
        2 * j + 2 <= b.len(),
    ensures
        word_seq_of(b.take(2 * j)).push(le16(b, 2 * j)) == word_seq_of(b.take(2 * j + 2)),
{
    let l = word_seq_of(b.take(2 * j)).push(le16(b, 2 * j));
    let r = word_seq_of(b.take(2 * j + 2));
    vstd::arithmetic::div_mod::lemma_div_multiples_vanish(j, 2);
    vstd::arithmetic::div_mod::lemma_div_multiples_vanish(j + 1, 2);
    assert(l.len() == j + 1);
    assert(r.len() == j + 1);
    assert forall|i: int| 0 <= i <= j implies l[i] == r[i] by {
        if i < j {
            assert(l[i] == le16(b.take(2 * j), 2 * i));
            assert(b.take(2 * j)[2 * i] == b[2 * i]);
            assert(b.take(2 * j)[2 * i + 1] == b[2 * i + 1]);
            assert(b.take(2 * j + 2)[2 * i] == b[2 * i]);
            assert(b.take(2 * j + 2)[2 * i + 1] == b[2 * i + 1]);
        } else {
            assert(r[j] == le16(b.take(2 * j + 2), 2 * j));
            assert(b.take(2 * j + 2)[2 * j] == b[2 * j]);
            assert(b.take(2 * j + 2)[2 * j + 1] == b[2 * j + 1]);
        }
    }
    assert(l =~= r);
}


/// A committed write replaces exactly the written window of the stored
/// bytes with the buffer's bytes and leaves the rest alone.
proof fn lemma_write_back(disk: Seq<u8>, lba: int, count: int, b: Seq<u8>)
    requires
        0 <= lba,
        1 <= count,
        count * 512 <= b.len(),
        lba * 512 + count * 512 <= disk.len(),
    ensures
        ({
            let d2 = crate::device::disk_after_write(
                disk,
                lba as nat,
                word_seq_of(b.take(count * 512)),
            );
            &&& d2.len() == disk.len()
            &&& (forall|k: int| 0 <= k < count * 512 ==> d2[lba * 512 + k] == b[k])
            &&& (forall|k: int|
                (0 <= k < lba * 512 || lba * 512 + count * 512 <= k < disk.len()) ==> d2[k]
                    == disk[k])
        }),
{
    let w = word_seq_of(b.take(count * 512));
    vstd::arithmetic::div_mod::lemma_div_multiples_vanish(count * 256, 2);
    vstd::arithmetic::div_mod::lemma_mod_multiples_basic(count * 256, 2);
    assert(w.len() == count * 256);
    crate::device::lemma_words_roundtrip(b.take(count * 512));
    let d2 = crate::device::disk_after_write(disk, lba as nat, w);
    assert forall|k: int| 0 <= k < count * 512 implies d2[lba * 512 + k] == b[k] by {
        assert(d2[lba * 512 + k] == word_byte(w, k));
        assert(word_byte(w, k) == b.take(count * 512)[k]);
    }
}


impl<P: AtaPorts> AtaDrive<P> {
    /// Hands the buffer to the device one 16-bit little-endian word at a
    /// time. The device stores the transfer once it has the words of
    /// every sector in the queued range, and ignores any words beyond
    /// it; the whole buffer is always sent, as the drive expects.
    /// Returns the number of bytes sent.
    #[verifier::rlimit(100)]
    fn write_sector_words(
        ports: &mut P,
        buffer: &Vec<u8>,
        lba_start: u64,
        sector_count: u64,
    ) -> (bytes_written: usize)
        requires
            old(ports).dev().wf(),
            old(ports).dev().kind is Ata,
            old(ports).dev().phase == (DevicePhase::DataOut {
                lba: lba_start as nat,
                sectors_total: sector_count as nat,
                got: Seq::empty(),
            }),
            1 <= sector_count,
            sector_count * 512 <= buffer@.len(),
            buffer@.len() % 512 == 0,
            lba_start * 512 + sector_count * 512 <= old(ports).dev().disk.len(),
        ensures
            final(ports).dev().wf(),
            final(ports).dev().kind == old(ports).dev().kind,
            final(ports).dev().slave == old(ports).dev().slave,
            final(ports).dev().sectors == old(ports).dev().sectors,
            final(ports).dev().identify == old(ports).dev().identify,
            final(ports).dev().regs == old(ports).dev().regs,
            final(ports).dev().phase is Idle,
            final(ports).dev().disk == crate::device::disk_after_write(
                old(ports).dev().disk,
                lba_start as nat,
                word_seq_of(buffer@.take((sector_count * 512) as int)),
            ),
            bytes_written == buffer@.len(),
    {
        let ghost dev1 = ports.dev();
        let ghost disk0 = dev1.disk;
        let ghost buf = buffer@;
        let total = buffer.len() / 2;
        proof {
            vstd::arithmetic::div_mod::lemma_fundamental_div_mod(buf.len() as int, 512);
            vstd::arithmetic::div_mod::lemma_div_multiples_vanish(
                ((buf.len() / 512) * 256) as int,
                2,
            );
            assert(2 * total == buf.len());
            assert(word_seq_of(buf.take(0)) =~= Seq::empty());
        }
        let mut j: usize = 0;
        while j < total
            invariant
                0 <= j <= total,
                2 * total == buf.len(),
                buf.len() <= usize::MAX,
                buffer@ == buf,
                ports.dev().wf(),
                ports.dev().kind == dev1.kind,
                dev1.kind is Ata,
                ports.dev().slave == dev1.slave,
                ports.dev().sectors == dev1.sectors,
                ports.dev().identify == dev1.identify,
                ports.dev().regs == dev1.regs,
                1 <= sector_count,
                sector_count * 256 <= total,
                lba_start * 512 + sector_count * 512 <= disk0.len(),
                j < sector_count * 256 ==> ports.dev().phase == (DevicePhase::DataOut {
                    lba: lba_start as nat,
                    sectors_total: sector_count as nat,
                    got: word_seq_of(buf.take(2 * j)),
                }) && ports.dev().disk == disk0,
                j >= sector_count * 256 ==> ports.dev().phase is Idle && ports.dev().disk
                    == crate::device::disk_after_write(
                    disk0,
                    lba_start as nat,
                    word_seq_of(buf.take((sector_count * 512) as int)),
                ),
            decreases total - j,
        {
            let word = buffer[2 * j] as u16 + 256 * (buffer[2 * j + 1] as u16);
            proof {
                assert(word == le16(buf, 2 * j));
                if j < sector_count * 256 {
                    vstd::arithmetic::div_mod::lemma_div_multiples_vanish(j as int, 2);
                    assert(word_seq_of(buf.take(2 * j)).len() == j);
                    lemma_word_prefix_push(buf, j as int);
                }
            }
            ports.write_data(word);
            j = j + 1;
        }
        total * 2
    }
}

impl<P: AtaPorts> AtaDrive<P> {
    /// Writes the bytes of `buffer` to this drive, starting at byte
    /// `offset` into the drive.
    ///
    /// Content reaches the drive at sector granularity only, so both the
    /// offset and the buffer length must be multiples of the sector size,
    /// or the write fails with [`DriveError::Unaligned`]; offsets beyond
    /// the capacity fail with [`DriveError::OutOfBounds`] and spans over
    /// the identify record's max-transfer field with
    /// [`DriveError::TransferTooLarge`], all before any device access.
    /// Otherwise the write succeeds and stores the buffer's bytes, or as
    /// many of them as lie within the drive's capacity, followed by a
    /// cache-flush command whose 28- or 48-bit variant matches the one
    /// the write used. Returns the number of bytes handed to the device.
    #[verifier::rlimit(100)]
    pub fn write_pio(&mut self, buffer: &Vec<u8>, offset: usize) -> (r: Result<usize, DriveError>)
        requires
            old(self).wf(),
            offset + buffer@.len() + 511 <= usize::MAX,
        ensures
            final(self).wf(),
            final(self).spec_size_in_sectors() == old(self).spec_size_in_sectors(),
            final(self).record() == old(self).record(),
            final(self).spec_is_master() == old(self).spec_is_master(),
            final(self).contents().len() == old(self).contents().len(),
            ({
                let size = old(self).spec_size_in_bytes();
                let sectors = old(self).spec_size_in_sectors();
                let len = buffer@.len();
                let span = span_of(offset as nat, len, sectors);
                let max = old(self).record().max_blocks_per_transfer as int;
                let aligned = len % 512 == 0 && offset % 512 == 0;
                &&& (!aligned ==> r == Err::<usize, DriveError>(DriveError::Unaligned)
                    && final(self).dev() == old(self).dev())
                &&& (aligned && offset > size ==> r == Err::<usize, DriveError>(
                    DriveError::OutOfBounds,
                ) && final(self).dev() == old(self).dev())
                &&& (aligned && offset <= size && span > max ==> r == Err::<usize, DriveError>(
                    DriveError::TransferTooLarge,
                ) && final(self).dev() == old(self).dev())
                &&& (aligned && offset <= size && span <= max ==> {
                    let n = reachable_len(offset as nat, len, sectors);
                    &&& (span == 0 ==> r == Ok::<usize, DriveError>(0)
                        && final(self).dev() == old(self).dev())
                    &&& (span > 0 ==> r == Ok::<usize, DriveError>(len as usize))
                    &&& (forall|k: int|
                        0 <= k < n ==> final(self).contents()[offset + k] == buffer@[k])
                    &&& (forall|k: int|
                        (0 <= k < offset || offset + n <= k < old(self).contents().len())
                            ==> final(self).contents()[k] == old(self).contents()[k])
                })
            }),
    {
        if buffer.len() % SECTOR_SIZE_IN_BYTES != 0 {
            return Err(DriveError::Unaligned);
        }
        if offset % SECTOR_SIZE_IN_BYTES != 0 {
            return Err(DriveError::Unaligned);
        }
        let ghost buf = buffer@;
        let ghost sectors_g = self.spec_size_in_sectors();
        let ghost disk_before = self.contents();
        let (lba_start, lba_end, _offset_remainder) = match self.lba_bounds(offset, buffer.len()) {
            Ok(t) => t,
            Err(e) => {
                return Err(e);
            },
        };
        let sector_count = lba_end - lba_start;
        if sector_count > self.identify_data.max_blocks_per_transfer as u64 {
            return Err(DriveError::TransferTooLarge);
        }
        proof {
            vstd::arithmetic::div_mod::lemma_fundamental_div_mod(offset as int, 512);
            vstd::arithmetic::div_mod::lemma_fundamental_div_mod(offset + buf.len() + 511, 512);
            vstd::arithmetic::div_mod::lemma_fundamental_div_mod(offset + buf.len(), 512);
        }
        if sector_count == 0 {
            // The range covers no sectors: either the buffer is empty or
            // the offset sits exactly at the end of the drive. Nothing to
            // transfer, and the device is not touched.
            return Ok(0);
        }
        // Use 28-bit addressing unless the start sector needs more.
        let using_lba_28 = lba_start <= MAX_LBA_28_VALUE;
        match Self::wait_for_data_done(&self.ports) {
            Ok(()) => {},
            Err(()) => {
                return Err(DriveError::HardwareError);
            },
        }
        Self::issue_transfer_command(
            &mut self.ports,
            self.master_slave,
            lba_start,
            sector_count,
            true,
        );
        match Self::wait_for_data_ready(&self.ports) {
            Ok(()) => {},
            Err(()) => {
                return Err(DriveError::HardwareError);
            },
        }
        let bytes_written = Self::write_sector_words(
            &mut self.ports,
            buffer,
            lba_start,
            sector_count,
        );
        match Self::wait_for_data_done(&self.ports) {
            Ok(()) => {},
            Err(()) => {
                return Err(DriveError::HardwareError);
            },
        }
        // Flush the drive's cache after every write, with the variant
        // that matches the addressing mode the write used.
        if using_lba_28 {
            self.ports.write_command(CMD_CACHE_FLUSH);
        } else {
            self.ports.write_command(CMD_CACHE_FLUSH_EXT);
        }
        match Self::wait_for_data_done(&self.ports) {
            Ok(()) => {},
            Err(()) => {
                return Err(DriveError::HardwareError);
            },
        }
        proof {
            let n = reachable_len(offset as nat, buf.len(), sectors_g);
            assert(n == sector_count * 512);
            lemma_write_back(disk_before, lba_start as int, sector_count as int, buf);
        }
        Ok(bytes_written)
    }
}

/// The 28-bit register protocol: after latching a sector count and the
/// three low address bytes, with bits 24..28 of the address in the low
/// nibble of drive-select, the registers decode to exactly that address
/// and count.
pub proof fn lemma_lba28_latching(m: AtaDeviceModel, lba: u64, count: u64, select: u8)
    requires
        lba <= 0xFFFFFFF,
        1 <= count <= 0xFF,
        select as nat % 16 == lba / 0x1000000,
    ensures
        ({
            let m2 = m.after_drive_select_write(select).after_sector_count_write(
                count as u8,
            ).after_lba_high_write(((lba / 0x10000) % 0x100) as u8).after_lba_mid_write(
                ((lba / 0x100) % 0x100) as u8,
            ).after_lba_low_write((lba % 0x100) as u8);
            lba28_of(m2.regs) == lba && count28_of(m2.regs) == count
        }),
{
    lemma_lba28_digits(lba);
}

/// The 48-bit register protocol: the sector count and address are sent
/// through the two-deep latches as a high-order byte round strictly
/// before a low-order byte round, so the older latched byte of each
/// register is its high byte; the registers then decode to exactly the
/// latched address and count. Writing the rounds in the other order
/// would decode to a different address, which is why the high bytes
/// must go first.
pub proof fn lemma_lba48_latching(m: AtaDeviceModel, lba: u64, count: u64)
    requires
        lba < 0x1000000000000,
        1 <= count <= 0xFFFF,
    ensures
        ({
            let m2 = m.after_sector_count_write(
                ((count / 0x100) % 0x100) as u8,
            ).after_lba_high_write((lba / 0x10000000000) as u8).after_lba_mid_write(
                ((lba / 0x100000000) % 0x100) as u8,
            ).after_lba_low_write(((lba / 0x1000000) % 0x100) as u8).after_sector_count_write(
                (count % 0x100) as u8,
            ).after_lba_high_write(((lba / 0x10000) % 0x100) as u8).after_lba_mid_write(
                ((lba / 0x100) % 0x100) as u8,
            ).after_lba_low_write((lba % 0x100) as u8);
            lba48_of(m2.regs) == lba && count48_of(m2.regs) == count
        }),
{
    lemma_lba48_digits(lba);
    assert((count / 0x100) % 0x100 == count / 0x100 && (count / 0x100) * 0x100 + count % 0x100
        == count && !(count / 0x100 == 0 && count % 0x100 == 0)) by (bit_vector)
        requires
            1 <= count <= 0xFFFF,
    ;
}

/// Writing bytes to a drive and then reading the same range back
/// returns exactly the bytes written: the transfer contracts compose
/// into a round trip. `post` is the drive's contents a successful
/// aligned write of `data` at `offset` leaves, and `read_back` what a
/// read of the same range then returns.
pub proof fn lemma_write_read_round_trip(
    pre: Seq<u8>,
    post: Seq<u8>,
    data: Seq<u8>,
    read_back: Seq<u8>,
    offset: int,
)
    requires
        0 <= offset,
        offset + data.len() <= pre.len(),
        post.len() == pre.len(),
        forall|k: int| 0 <= k < data.len() ==> post[offset + k] == data[k],
        read_back.len() == data.len(),
        forall|k: int| 0 <= k < data.len() ==> read_back[k] == post[offset + k],
    ensures
        read_back == data,
{
    assert(read_back =~= data);
}

} // verus!
