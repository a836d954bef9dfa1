use ata::identify::AtaFirmwareVersion;
use ata::identify::AtaIdentifyData;
use ata::identify::AtaModelNumber;
use ata::identify::AtaSerialNumber;
use ata::regs::AtaStatus;

#[test]
fn flip_bytes_swaps_adjacent_pairs() {
    let mut v = vec![1u8, 2, 3, 4, 5, 6];
    AtaIdentifyData::flip_bytes(&mut v);
    assert_eq!(v, vec![2u8, 1, 4, 3, 6, 5]);
}

#[test]
fn flip_bytes_twice_is_identity() {
    let original = vec![9u8, 8, 7, 6];
    let mut v = original.clone();
    AtaIdentifyData::flip_bytes(&mut v);
    AtaIdentifyData::flip_bytes(&mut v);
    assert_eq!(v, original);
}

#[test]
fn decodes_numeric_fields_little_endian() {
    let mut raw = vec![0u8; 512];
    raw[0] = 0x34;
    raw[1] = 0x12; // general configuration
    raw[94] = 16; // max blocks per transfer
    raw[98] = 0x00;
    raw[99] = 0x02; // capabilities with the LBA bit
    raw[120] = 0x78;
    raw[121] = 0x56;
    raw[122] = 0x34;
    raw[123] = 0x12; // 28-bit sector count
    raw[200] = 0xEF;
    raw[201] = 0xCD;
    raw[202] = 0xAB; // low bytes of the 48-bit sector count
    let d = AtaIdentifyData::new(raw);
    assert_eq!(d.general_configuration, 0x1234);
    assert_eq!(d.max_blocks_per_transfer, 16);
    assert_eq!(d.capabilities, 0x0200);
    assert_eq!(d.user_addressable_sectors, 0x12345678);
    assert_eq!(d.max_48_bit_lba, 0xABCDEF);
}

#[test]
fn corrects_the_swapped_text_fields() {
    let mut raw = vec![0u8; 512];
    // The serial number is stored with each byte pair exchanged.
    let serial = b"ES0123456789ABCDEFGH";
    for (i, pair) in serial.chunks(2).enumerate() {
        raw[20 + 2 * i] = pair[1];
        raw[20 + 2 * i + 1] = pair[0];
    }
    let firmware = b"1.0.beta";
    for (i, pair) in firmware.chunks(2).enumerate() {
        raw[46 + 2 * i] = pair[1];
        raw[46 + 2 * i + 1] = pair[0];
    }
    let d = AtaIdentifyData::new(raw);
    assert_eq!(d.serial_number.bytes(), serial.to_vec());
    assert_eq!(d.firmware_version.bytes(), firmware.to_vec());
}

#[test]
fn decodes_the_model_number() {
    let mut raw = vec![0u8; 512];
    for i in 0..40 {
        raw[54 + i] = i as u8;
    }
    let d = AtaIdentifyData::new(raw);
    let expected: Vec<u8> = (0..40).map(|i| (if i % 2 == 0 { i + 1 } else { i - 1 }) as u8).collect();
    assert_eq!(d.model_number.bytes(), expected);
}

#[test]
fn default_text_fields_are_blank() {
    assert_eq!(AtaSerialNumber::default().bytes(), vec![0u8; 20]);
    assert_eq!(AtaModelNumber::default().bytes(), vec![0u8; 40]);
    assert_eq!(AtaFirmwareVersion::default().bytes(), vec![0u8; 8]);
}

#[test]
fn status_flags_decode_their_bits() {
    let s = AtaStatus::from_bits(0x88);
    assert!(s.busy());
    assert!(s.data_request_ready());
    assert!(!s.drive_ready());
    assert!(!s.error());
    let idle = AtaStatus::from_bits(0x40);
    assert!(!idle.busy());
    assert!(idle.drive_ready());
    assert!(AtaStatus::from_bits(0).is_empty());
    assert!(!idle.is_empty());
}
