use ata::drive::AtaDrive;
use ata::drive::BusDriveSelect;
use ata::sim::SimDevice;
use ata::DriveError;

/// A disk of `sectors` sectors whose byte at offset `i` is `f(i)`.
fn disk_with(sectors: usize, f: impl Fn(usize) -> u8) -> Vec<u8> {
    let mut v = Vec::new();
    for i in 0..sectors * 512 {
        v.push(f(i));
    }
    v
}

fn plain_drive(disk: Vec<u8>, max_blocks: u8) -> AtaDrive<SimDevice> {
    let dev = SimDevice::new_ata(disk, max_blocks, true, false, false);
    AtaDrive::new(dev, BusDriveSelect::Master).expect("probe of a plain ATA device")
}

#[test]
fn lba_bounds_whole_range() {
    let drive = plain_drive(disk_with(16, |_| 0), 16);
    assert_eq!(drive.lba_bounds(0, 6100), Ok((0, 12, 0)));
}

#[test]
fn lba_bounds_aligned_interior() {
    let drive = plain_drive(disk_with(16, |_| 0), 16);
    assert_eq!(drive.lba_bounds(1024, 1536), Ok((2, 5, 0)));
}

#[test]
fn lba_bounds_partial_first_sector() {
    let drive = plain_drive(disk_with(16, |_| 0), 16);
    // start = 700 / 512, remainder = 700 % 512, end = ceil(800 / 512).
    assert_eq!(drive.lba_bounds(700, 100), Ok((1, 2, 188)));
}

#[test]
fn lba_bounds_clipped_by_capacity() {
    let drive = plain_drive(disk_with(16, |_| 0), 16);
    // The requested end would be sector 20; the drive has 16.
    assert_eq!(drive.lba_bounds(7000, 3000), Ok((13, 16, 344)));
}

#[test]
fn lba_bounds_at_exact_end() {
    let drive = plain_drive(disk_with(16, |_| 0), 16);
    assert_eq!(drive.lba_bounds(16 * 512, 100), Ok((16, 16, 0)));
}

#[test]
fn lba_bounds_out_of_bounds() {
    let drive = plain_drive(disk_with(16, |_| 0), 16);
    assert_eq!(drive.lba_bounds(16 * 512 + 1, 0), Err(DriveError::OutOfBounds));
}

#[test]
fn read_whole_sectors_and_a_partial_tail() {
    // Spans 12 sectors, the last one partial.
    let pattern = |i: usize| (i % 251) as u8;
    let mut drive = plain_drive(disk_with(16, pattern), 16);
    let mut buffer = vec![0u8; 6100];
    let n = drive.read_pio(&mut buffer, 0).expect("read inside the drive");
    assert_eq!(n, 6100);
    for i in 0..6100 {
        assert_eq!(buffer[i], pattern(i));
    }
}

#[test]
fn read_from_unaligned_offset() {
    let pattern = |i: usize| (i % 13) as u8;
    let mut drive = plain_drive(disk_with(4, pattern), 4);
    let mut buffer = vec![0u8; 100];
    let n = drive.read_pio(&mut buffer, 700).expect("read inside the drive");
    assert_eq!(n, 100);
    for i in 0..100 {
        assert_eq!(buffer[i], pattern(700 + i));
    }
}

#[test]
fn read_crossing_sectors_unaligned() {
    let pattern = |i: usize| ((i * 7) % 256) as u8;
    let mut drive = plain_drive(disk_with(4, pattern), 4);
    let mut buffer = vec![0u8; 1000];
    let n = drive.read_pio(&mut buffer, 300).expect("read inside the drive");
    assert_eq!(n, 1000);
    for i in 0..1000 {
        assert_eq!(buffer[i], pattern(300 + i));
    }
}

#[test]
fn read_clipped_at_capacity() {
    let pattern = |i: usize| (i % 7) as u8;
    let mut drive = plain_drive(disk_with(2, pattern), 4);
    let mut buffer = vec![0xAAu8; 2000];
    let n = drive.read_pio(&mut buffer, 0).expect("read inside the drive");
    assert_eq!(n, 1024);
    for i in 0..1024 {
        assert_eq!(buffer[i], pattern(i));
    }
    // Bytes past the drive's end are untouched.
    for i in 1024..2000 {
        assert_eq!(buffer[i], 0xAA);
    }
}

#[test]
fn read_at_end_of_drive_is_empty() {
    let mut drive = plain_drive(disk_with(2, |_| 9), 4);
    let mut buffer = vec![5u8; 512];
    assert_eq!(drive.read_pio(&mut buffer, 1024), Ok(0));
    assert!(buffer.iter().all(|&b| b == 5));
}

#[test]
fn read_beyond_end_is_out_of_bounds() {
    let mut drive = plain_drive(disk_with(2, |_| 0), 4);
    let mut buffer = vec![0u8; 512];
    assert_eq!(drive.read_pio(&mut buffer, 1025), Err(DriveError::OutOfBounds));
}

#[test]
fn read_over_max_transfer_size() {
    let mut drive = plain_drive(disk_with(8, |_| 0), 1);
    let mut buffer = vec![0u8; 1024];
    assert_eq!(drive.read_pio(&mut buffer, 0), Err(DriveError::TransferTooLarge));
}

#[test]
fn write_unaligned_length() {
    let mut drive = plain_drive(disk_with(4, |_| 0), 8);
    let buffer = vec![1u8; 100];
    assert_eq!(drive.write_pio(&buffer, 0), Err(DriveError::Unaligned));
}

#[test]
fn write_unaligned_offset() {
    let mut drive = plain_drive(disk_with(4, |_| 0), 8);
    let buffer = vec![1u8; 512];
    assert_eq!(drive.write_pio(&buffer, 100), Err(DriveError::Unaligned));
}

#[test]
fn write_beyond_end_is_out_of_bounds() {
    let mut drive = plain_drive(disk_with(4, |_| 0), 8);
    let buffer = vec![1u8; 512];
    assert_eq!(drive.write_pio(&buffer, 5 * 512), Err(DriveError::OutOfBounds));
}

#[test]
fn write_over_max_transfer_size() {
    let mut drive = plain_drive(disk_with(8, |_| 0), 1);
    let buffer = vec![1u8; 1024];
    assert_eq!(drive.write_pio(&buffer, 0), Err(DriveError::TransferTooLarge));
}

#[test]
fn write_then_read_round_trip() {
    // Three whole sectors of a 16-byte repeating pattern at offset 1024.
    let mut drive = plain_drive(disk_with(16, |_| 0), 16);
    let mut write_buf = vec![0u8; 1536];
    for (i, b) in write_buf.iter_mut().enumerate() {
        *b = b"QWERTYUIOPASDFJK"[i % 16];
    }
    let written = drive.write_pio(&write_buf, 1024).expect("aligned in-bounds write");
    assert_eq!(written, 1536);
    let mut read_buf = vec![0u8; 1536];
    let read = drive.read_pio(&mut read_buf, 1024).expect("read back the written range");
    assert_eq!(read, 1536);
    assert_eq!(read_buf, write_buf);
}

#[test]
fn write_leaves_other_sectors_alone() {
    let pattern = |i: usize| (i % 97) as u8;
    let mut drive = plain_drive(disk_with(4, pattern), 8);
    let buffer = vec![0xEEu8; 512];
    assert_eq!(drive.write_pio(&buffer, 512), Ok(512));
    let mut all = vec![0u8; 2048];
    assert_eq!(drive.read_pio(&mut all, 0), Ok(2048));
    for i in 0..512 {
        assert_eq!(all[i], pattern(i));
    }
    for i in 512..1024 {
        assert_eq!(all[i], 0xEE);
    }
    for i in 1024..2048 {
        assert_eq!(all[i], pattern(i));
    }
}

#[test]
fn write_zero_length_touches_nothing() {
    let mut drive = plain_drive(disk_with(2, |_| 3), 4);
    let buffer: Vec<u8> = Vec::new();
    assert_eq!(drive.write_pio(&buffer, 512), Ok(0));
    let mut all = vec![0u8; 1024];
    assert_eq!(drive.read_pio(&mut all, 0), Ok(1024));
    assert!(all.iter().all(|&b| b == 3));
}

#[test]
fn size_of_drive_with_28_bit_field() {
    let drive = plain_drive(disk_with(16, |_| 0), 16);
    assert_eq!(drive.size_in_sectors(), 16);
    assert_eq!(drive.size_in_bytes(), 16 * 512);
    assert_eq!(drive.size_in_bytes(), drive.size_in_sectors() * 512);
}

#[test]
fn size_of_drive_with_48_bit_field_only() {
    // The 28-bit capacity field is zero; the 48-bit field carries it.
    let dev = SimDevice::new_ata(vec![0u8; 16 * 512], 16, true, true, false);
    let drive = AtaDrive::new(dev, BusDriveSelect::Master).expect("probe of a plain ATA device");
    assert_eq!(drive.size_in_sectors(), 16);
    assert_eq!(drive.size_in_bytes(), 16 * 512);
}

#[test]
fn healthy_drive_reports_no_error_flags() {
    let drive = plain_drive(disk_with(2, |_| 0), 4);
    let e = drive.error();
    assert!(!e.command_aborted());
    assert!(!e.bad_block());
    assert!(!e.uncorrectable_data());
    assert!(!e.media_changed());
    assert!(!e.id_mark_not_found());
    assert!(!e.media_change_request());
    assert!(!e.track_0_not_found());
    assert!(!e.address_mark_not_found());
}
