use ata::controller::AtaBus;
use ata::controller::IdeController;
use ata::controller::DEFAULT_PRIMARY_CHANNEL_CONTROL_PORT;
use ata::controller::DEFAULT_PRIMARY_CHANNEL_DATA_PORT;
use ata::controller::DEFAULT_SECONDARY_CHANNEL_CONTROL_PORT;
use ata::controller::DEFAULT_SECONDARY_CHANNEL_DATA_PORT;
use ata::controller::{masked_port_base, port_base_from_bar};
use ata::drive::AtaDeviceType;
use ata::drive::AtaDrive;
use ata::drive::BusDriveSelect;
use ata::sim::SimDevice;
use ata::DriveError;

#[test]
fn classification_accepts_plain_ata() {
    assert_eq!(AtaDeviceType::from_lba(0x00, 0x00), Some(AtaDeviceType::Pata));
}

#[test]
fn classification_knows_the_foreign_signatures() {
    assert_eq!(AtaDeviceType::from_lba(0x14, 0xEB), Some(AtaDeviceType::PataPi));
    assert_eq!(AtaDeviceType::from_lba(0x3C, 0xC3), Some(AtaDeviceType::Sata));
    assert_eq!(AtaDeviceType::from_lba(0x69, 0x96), Some(AtaDeviceType::SataPi));
}

#[test]
fn classification_rejects_unknown_pairs() {
    assert_eq!(AtaDeviceType::from_lba(0x01, 0x02), None);
    assert_eq!(AtaDeviceType::from_lba(0xEB, 0x14), None);
    assert_eq!(AtaDeviceType::from_lba(0x00, 0x01), None);
}

#[test]
fn probing_an_empty_position() {
    let r = AtaDrive::new(SimDevice::absent(false), BusDriveSelect::Master);
    assert_eq!(r.err(), Some(DriveError::NotPresent));
}

#[test]
fn probing_a_packet_interface_device() {
    let r = AtaDrive::new(SimDevice::other(0x14, 0xEB, false), BusDriveSelect::Master);
    assert_eq!(r.err(), Some(DriveError::UnsupportedDevice));
}

#[test]
fn probing_a_sata_device() {
    let r = AtaDrive::new(SimDevice::other(0x3C, 0xC3, false), BusDriveSelect::Master);
    assert_eq!(r.err(), Some(DriveError::UnsupportedDevice));
}

#[test]
fn probing_a_sata_packet_device() {
    let r = AtaDrive::new(SimDevice::other(0x69, 0x96, false), BusDriveSelect::Master);
    assert_eq!(r.err(), Some(DriveError::UnsupportedDevice));
}

#[test]
fn probing_an_unknown_signature() {
    let r = AtaDrive::new(SimDevice::other(0x55, 0xAA, false), BusDriveSelect::Master);
    assert_eq!(r.err(), Some(DriveError::UnsupportedDevice));
}

#[test]
fn probing_a_chs_only_device() {
    let dev = SimDevice::new_ata(vec![0u8; 1024], 4, false, false, false);
    let r = AtaDrive::new(dev, BusDriveSelect::Master);
    assert_eq!(r.err(), Some(DriveError::ChsUnsupported));
}

#[test]
fn master_and_slave_positions() {
    let m = AtaDrive::new(
        SimDevice::new_ata(vec![0u8; 1024], 4, true, false, false),
        BusDriveSelect::Master,
    )
    .expect("probe of a plain ATA device");
    assert!(m.is_master());
    let s = AtaDrive::new(
        SimDevice::new_ata(vec![0u8; 1024], 4, true, false, true),
        BusDriveSelect::Slave,
    )
    .expect("probe of a plain ATA device");
    assert!(!s.is_master());
}

#[test]
fn controller_probes_each_position_independently() {
    let c = IdeController::new(
        SimDevice::new_ata(vec![7u8; 2048], 4, true, false, false),
        SimDevice::absent(true),
        SimDevice::other(0x14, 0xEB, false),
        SimDevice::new_ata(vec![9u8; 1024], 4, true, false, true),
    )
    .expect("controller construction is tolerant of missing drives");
    assert!(c.primary.master.is_some());
    assert!(c.primary.slave.is_none());
    assert!(c.secondary.master.is_none());
    let slave = c.secondary.slave.as_ref().expect("the secondary slave answered");
    assert!(!slave.is_master());
    assert_eq!(slave.size_in_sectors(), 2);
    let master = c.primary.master.as_ref().expect("the primary master answered");
    assert!(master.is_master());
    assert_eq!(master.size_in_bytes(), 2048);
}

#[test]
fn software_reset_with_drives_is_unimplemented() {
    let drive = AtaDrive::new(
        SimDevice::new_ata(vec![0u8; 1024], 4, true, false, false),
        BusDriveSelect::Master,
    )
    .ok();
    let mut bus: AtaBus<SimDevice> = AtaBus { master: drive, slave: None };
    assert_eq!(bus.software_reset(), Err(DriveError::Unimplemented));
}

#[test]
fn software_reset_without_drives_is_unimplemented() {
    let mut bus: AtaBus<SimDevice> = AtaBus { master: None, slave: None };
    assert_eq!(bus.software_reset(), Err(DriveError::Unimplemented));
}

#[test]
fn bar_sentinels_select_the_legacy_ports() {
    assert_eq!(port_base_from_bar(0x0, DEFAULT_PRIMARY_CHANNEL_DATA_PORT), 0x1F0);
    assert_eq!(port_base_from_bar(0x1, DEFAULT_PRIMARY_CHANNEL_CONTROL_PORT), 0x3F6);
    assert_eq!(port_base_from_bar(0x0, DEFAULT_SECONDARY_CHANNEL_DATA_PORT), 0x170);
    assert_eq!(port_base_from_bar(0x1, DEFAULT_SECONDARY_CHANNEL_CONTROL_PORT), 0x376);
    assert_eq!(port_base_from_bar(0xC401, DEFAULT_PRIMARY_CHANNEL_DATA_PORT), 0xC401);
}

#[test]
fn bar_port_bases_are_aligned() {
    assert_eq!(masked_port_base(0xC403), 0xC400);
    assert_eq!(masked_port_base(0x1F0), 0x1F0);
}
