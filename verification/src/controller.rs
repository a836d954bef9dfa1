//! The bus and controller layers: up to two drives per bus, two buses
//! per IDE controller, and the translation of PCI base-address-register
//! values into port bases.
//!
//! A bus's two drives physically share one register set, so they must
//! never have commands in flight at the same time; this layer documents
//! that exclusion but, like the hardware, cannot enforce it — the
//! surrounding system must serialize access per bus.

use crate::device::id_lba_supported;
use crate::drive::AtaDrive;
use crate::drive::BusDriveSelect;
use crate::identify::parses;
use crate::ports::AtaPorts;
use crate::DriveError;
use vstd::prelude::*;

verus! {

/// The port base of the primary channel's command block when its BAR
/// holds a legacy-mode sentinel.
pub const DEFAULT_PRIMARY_CHANNEL_DATA_PORT: u16 = 0x1F0;

/// The port base of the primary channel's control block when its BAR
/// holds a legacy-mode sentinel.
pub const DEFAULT_PRIMARY_CHANNEL_CONTROL_PORT: u16 = 0x3F6;

/// The port base of the secondary channel's command block when its BAR
/// holds a legacy-mode sentinel.
pub const DEFAULT_SECONDARY_CHANNEL_DATA_PORT: u16 = 0x170;

/// The port base of the secondary channel's control block when its BAR
/// holds a legacy-mode sentinel.
pub const DEFAULT_SECONDARY_CHANNEL_CONTROL_PORT: u16 = 0x376;

/// To use a BAR value as a port address, the lowest two bits must be
/// masked off.
pub const PCI_BAR_PORT_MASK: u16 = 0xFFFC;

/// What the controller reads from a PCI device descriptor: the first
/// five base-address-register values.
#[derive(Clone, Copy, Debug, PartialEq, Eq, Structural)]
pub struct PciBars {
    pub bar0: u32,
    pub bar1: u32,
    pub bar2: u32,
    pub bar3: u32,
    pub bar4: u32,
}

/// The port base a BAR value selects: the channel's documented legacy
/// default for the sentinel values 0 and 1 (the PCI-IDE legacy-mode
/// convention), and the BAR's own value otherwise.
pub open spec fn spec_port_base(bar: u32, legacy_default: u16) -> u16 {
    if bar == 0 || bar == 1 {
        legacy_default
    } else {
        bar as u16
    }
}

/// Translates one BAR value into a port base, substituting the legacy
/// default for the sentinel values.
pub fn port_base_from_bar(bar: u32, legacy_default: u16) -> (r: u16)
    ensures
        r == spec_port_base(bar, legacy_default),
{
    match bar {
        0x0 | 0x1 => legacy_default,
        other => other as u16,
    }
}

/// Masks the two lowest bits off a port base, the alignment the
/// hardware requires of a BAR used as a port address.
pub fn masked_port_base(bar: u16) -> (r: u16)
    ensures
        r == bar & PCI_BAR_PORT_MASK,
{
    bar & PCI_BAR_PORT_MASK
}

/// One ATA bus: an optional master and an optional slave drive that
/// share one register set and must be used in a mutually exclusive way.
pub struct AtaBus<P: AtaPorts> {
    pub master: Option<AtaDrive<P>>,
    pub slave: Option<AtaDrive<P>>,
}

impl<P: AtaPorts> AtaBus<P> {
    /// Issues a software reset to both drives on this bus. A reset
    /// cannot be issued to a single drive: the hardware resets both at
    /// once, by setting the reset bit, holding it for about five
    /// microseconds, and clearing it. That sequencing is deferred, so
    /// the reset always fails with [`DriveError::Unimplemented`] and
    /// touches no register.
    pub fn software_reset(&mut self) -> (r: Result<(), DriveError>)
        ensures
            *final(self) == *old(self),
            r == Err::<(), DriveError>(DriveError::Unimplemented),
    {
        Err(DriveError::Unimplemented)
    }
}

/// What probing one drive position yields: the slot is filled exactly
/// when a plain ATA device with LBA support answered there, and a
/// filled slot is a well-formed drive over that device.
pub open spec fn probed<P: AtaPorts>(slot: Option<AtaDrive<P>>, ports: P, master: bool) -> bool {
    &&& (slot is Some <==> (ports.dev().kind is Ata && id_lba_supported(ports.dev().identify)))
    &&& (match slot {
        Some(d) => {
            &&& d.wf()
            &&& d.contents() == ports.dev().disk
            &&& d.spec_size_in_sectors() == ports.dev().sectors
            &&& d.spec_is_master() == master
            &&& parses(ports.dev().identify, d.record())
        },
        None => true,
    })
}

/// A single IDE controller: two buses with up to two drives each, for a
/// total of up to four drives.
pub struct IdeController<P: AtaPorts> {
    pub primary: AtaBus<P>,
    pub secondary: AtaBus<P>,
}

impl<P: AtaPorts> IdeController<P> {
    /// Creates an IDE controller over the register files of its four
    /// drive positions.
    ///
    /// Each position is probed independently; a missing or failed probe
    /// leaves that position empty and never fails the controller as a
    /// whole, so construction always succeeds.
    pub fn new(primary_master: P, primary_slave: P, secondary_master: P, secondary_slave: P)
        -> (r: Result<IdeController<P>, DriveError>)
        requires
            primary_master.dev().wf(),
            primary_master.dev().phase is Idle,
            !primary_master.dev().slave,
            primary_slave.dev().wf(),
            primary_slave.dev().phase is Idle,
            primary_slave.dev().slave,
            secondary_master.dev().wf(),
            secondary_master.dev().phase is Idle,
            !secondary_master.dev().slave,
            secondary_slave.dev().wf(),
            secondary_slave.dev().phase is Idle,
            secondary_slave.dev().slave,
        ensures
            r is Ok,
            (match r {
                Ok(c) => {
                    &&& probed(c.primary.master, primary_master, true)
                    &&& probed(c.primary.slave, primary_slave, false)
                    &&& probed(c.secondary.master, secondary_master, true)
                    &&& probed(c.secondary.slave, secondary_slave, false)
                },
                Err(_) => false,
            }),
    {
        let primary_master = match AtaDrive::new(primary_master, BusDriveSelect::Master) {
            Ok(d) => Some(d),
            Err(_) => None,
        };
        let primary_slave = match AtaDrive::new(primary_slave, BusDriveSelect::Slave) {
            Ok(d) => Some(d),
            Err(_) => None,
        };
        let secondary_master = match AtaDrive::new(secondary_master, BusDriveSelect::Master) {
            Ok(d) => Some(d),
            Err(_) => None,
        };
        let secondary_slave = match AtaDrive::new(secondary_slave, BusDriveSelect::Slave) {
            Ok(d) => Some(d),
            Err(_) => None,
        };
        Ok(
            IdeController {
                primary: AtaBus { master: primary_master, slave: primary_slave },
                secondary: AtaBus { master: secondary_master, slave: secondary_slave },
            },
        )
    }
}

} // verus!
