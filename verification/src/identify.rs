//! The identify record: a typed view over the 512-byte response to the
//! identify command, decoded field by field at the offsets the hardware
//! defines.
//!
//! Every numeric field is little-endian within and across its 16-bit
//! words. The three text fields (serial number, firmware version, model
//! number) arrive with each pair of bytes exchanged relative to every
//! other field, so they are corrected with [`AtaIdentifyData::flip_bytes`]
//! as the record is decoded.

use crate::device::le16;
use crate::device::le32;
use crate::device::le64;
use vstd::prelude::*;

verus! {

/// The pair-swapped form of a byte sequence of even length: bytes `2i` and
/// `2i + 1` exchange places.
pub open spec fn flip_pairs(s: Seq<u8>) -> Seq<u8> {
    Seq::new(
        s.len(),
        |i: int|
            if i % 2 == 0 {
                s[i + 1]
            } else {
                s[i - 1]
            },
    )
}

/// `v` holds the `n` consecutive 16-bit words stored at byte offset `off`.
pub open spec fn word_run(b: Seq<u8>, off: int, v: Seq<u16>, n: int) -> bool {
    v.len() == n && (forall|i: int| 0 <= i < n ==> v[i] == le16(b, off + 2 * i))
}

/// An ATA drive's serial number: 20 bytes of ASCII text.
#[derive(Clone, Debug)]
pub struct AtaSerialNumber(Vec<u8>);

impl View for AtaSerialNumber {
    type V = Seq<u8>;

    closed spec fn view(&self) -> Seq<u8> {
        self.0@
    }
}

impl AtaSerialNumber {
    /// Wraps the corrected text bytes.
    pub fn from_bytes(b: Vec<u8>) -> (r: AtaSerialNumber)
        requires
            b@.len() == 20,
        ensures
            r@ == b@,
    {
        AtaSerialNumber(b)
    }

    /// A copy of the text bytes.
    pub fn bytes(&self) -> (r: Vec<u8>)
        ensures
            r@ == self@,
    {
        copy_bytes(&self.0)
    }
}

impl Default for AtaSerialNumber {
    /// An all-zero serial number, for a record built by hand.
    fn default() -> (r: Self)
        ensures
            r@ == Seq::new(20, |i: int| 0u8),
    {
        AtaSerialNumber(zero_bytes(20))
    }
}

/// An ATA drive's model number: 40 bytes of ASCII text.
#[derive(Clone, Debug)]
pub struct AtaModelNumber(Vec<u8>);

impl View for AtaModelNumber {
    type V = Seq<u8>;

    closed spec fn view(&self) -> Seq<u8> {
        self.0@
    }
}

impl AtaModelNumber {
    /// Wraps the corrected text bytes.
    pub fn from_bytes(b: Vec<u8>) -> (r: AtaModelNumber)
        requires
            b@.len() == 40,
        ensures
            r@ == b@,
    {
        AtaModelNumber(b)
    }

    /// A copy of the text bytes.
    pub fn bytes(&self) -> (r: Vec<u8>)
        ensures
            r@ == self@,
    {
        copy_bytes(&self.0)
    }
}

impl Default for AtaModelNumber {
    /// An all-zero model number, for a record built by hand.
    fn default() -> (r: Self)
        ensures
            r@ == Seq::new(40, |i: int| 0u8),
    {
        AtaModelNumber(zero_bytes(40))
    }
}

/// An ATA drive's firmware version: 8 bytes of ASCII text.
#[derive(Clone, Debug)]
pub struct AtaFirmwareVersion(Vec<u8>);

impl View for AtaFirmwareVersion {
    type V = Seq<u8>;

    closed spec fn view(&self) -> Seq<u8> {
        self.0@
    }
}

impl AtaFirmwareVersion {
    /// Wraps the corrected text bytes.
    pub fn from_bytes(b: Vec<u8>) -> (r: AtaFirmwareVersion)
        requires
            b@.len() == 8,
        ensures
            r@ == b@,
    {
        AtaFirmwareVersion(b)
    }

    /// A copy of the text bytes.
    pub fn bytes(&self) -> (r: Vec<u8>)
        ensures
            r@ == self@,
    {
        copy_bytes(&self.0)
    }
}

impl Default for AtaFirmwareVersion {
    /// An all-zero firmware version, for a record built by hand.
    fn default() -> (r: Self)
        ensures
            r@ == Seq::new(8, |i: int| 0u8),
    {
        AtaFirmwareVersion(zero_bytes(8))
    }
}

/// `n` zero bytes.
pub(crate) fn zero_bytes(n: usize) -> (r: Vec<u8>)
    ensures
        r@ == Seq::new(n as nat, |i: int| 0u8),
{
    let mut v: Vec<u8> = Vec::new();
    let mut i: usize = 0;
    while i < n
        invariant
            i <= n,
            v@.len() == i,
            forall|j: int| 0 <= j < i ==> v@[j] == 0u8,
        decreases n - i,
    {
        v.push(0);
        i = i + 1;
    }
    proof {
        assert(v@ =~= Seq::new(n as nat, |i: int| 0u8));
    }
    v
}

/// A fresh copy of a byte vector.
fn copy_bytes(b: &Vec<u8>) -> (r: Vec<u8>)
    ensures
        r@ == b@,
{
    let mut v: Vec<u8> = Vec::new();
    let mut i: usize = 0;
    while i < b.len()
        invariant
            i <= b@.len(),
            v@.len() == i,
            forall|j: int| 0 <= j < i ==> v@[j] == b@[j],
        decreases b@.len() - i,
    {
        v.push(b[i]);
        i = i + 1;
    }
    proof {
        assert(v@ =~= b@);
    }
    v
}

/// The 16-bit field stored little-endian at byte offset `off`.
fn le16_at(b: &Vec<u8>, off: usize) -> (r: u16)
    requires
        off + 2 <= b@.len(),
        b@.len() <= usize::MAX,
    ensures
        r == le16(b@, off as int),
{
    b[off] as u16 + 256 * (b[off + 1] as u16)
}

/// The 32-bit field stored little-endian at byte offset `off`.
fn le32_at(b: &Vec<u8>, off: usize) -> (r: u32)
    requires
        off + 4 <= b@.len(),
        b@.len() <= usize::MAX,
    ensures
        r == le32(b@, off as int),
{
    b[off] as u32 + 0x100 * (b[off + 1] as u32) + 0x10000 * (b[off + 2] as u32) + 0x1000000 * (b[off
        + 3] as u32)
}

/// The 64-bit field stored little-endian at byte offset `off`.
fn le64_at(b: &Vec<u8>, off: usize) -> (r: u64)
    requires
        off + 8 <= b@.len(),
        b@.len() <= usize::MAX,
    ensures
        r == le64(b@, off as int),
{
    le32_at(b, off) as u64 + 0x100000000 * (le32_at(b, off + 4) as u64)
}

/// The `n` 16-bit words stored at byte offset `off`, as a vector.
fn words_at(b: &Vec<u8>, off: usize, n: usize) -> (r: Vec<u16>)
    requires
        off + 2 * n <= b@.len(),
        b@.len() <= usize::MAX,
    ensures
        word_run(b@, off as int, r@, n as int),
{
    let mut v: Vec<u16> = Vec::new();
    let mut i: usize = 0;
    while i < n
        invariant
            i <= n,
            off + 2 * n <= b@.len(),
            b@.len() <= usize::MAX,
            v@.len() == i,
            forall|j: int| 0 <= j < i ==> v@[j] == le16(b@, off + 2 * j),
        decreases n - i,
    {
        v.push(le16_at(b, off + 2 * i));
        i = i + 1;
    }
    v
}

/// The bytes `b[start..end]`, as a fresh vector.
fn bytes_range(b: &Vec<u8>, start: usize, end: usize) -> (r: Vec<u8>)
    requires
        start <= end <= b@.len(),
    ensures
        r@ == b@.subrange(start as int, end as int),
{
    let mut v: Vec<u8> = Vec::new();
    let mut i: usize = start;
    while i < end
        invariant
            start <= i <= end <= b@.len(),
            v@.len() == i - start,
            forall|j: int| 0 <= j < i - start ==> v@[j] == b@[start + j],
        decreases end - i,
    {
        v.push(b[i]);
        i = i + 1;
    }
    proof {
        assert(v@ =~= b@.subrange(start as int, end as int));
    }
    v
}

/// Information that describes an ATA drive, decoded from the response to
/// an identify command.
///
/// Field names follow the hardware specification's field list; each doc
/// offset below is the byte offset of the field inside the 512-byte
/// response. Reserved and vendor-retired words are not represented.
#[derive(Clone, Debug)]
pub struct AtaIdentifyData {
    /// Byte 0.
    pub general_configuration: u16,
    /// Byte 2.
    pub num_cylinders: u16,
    /// Byte 4.
    pub specific_configuration: u16,
    /// Byte 6.
    pub num_heads: u16,
    /// Byte 12.
    pub num_sectors_per_track: u16,
    /// Bytes 14..20, three words.
    pub vendor_unique1: Vec<u16>,
    /// Bytes 20..40, pair-swapped text.
    pub serial_number: AtaSerialNumber,
    /// Bytes 46..54, pair-swapped text.
    pub firmware_version: AtaFirmwareVersion,
    /// Bytes 54..94, pair-swapped text.
    pub model_number: AtaModelNumber,
    /// Byte 94: the most sectors one command may transfer.
    pub max_blocks_per_transfer: u8,
    /// Byte 95.
    pub vendor_unique2: u8,
    /// Byte 96.
    pub trusted_computing: u16,
    /// Byte 98: capability bits; bit 9 advertises LBA addressing.
    pub capabilities: u16,
    /// Byte 106.
    pub translation_fields_valid: u8,
    /// Byte 107.
    pub free_fall_control_sensitivity: u8,
    /// Byte 108.
    pub num_current_cylinders: u16,
    /// Byte 110.
    pub num_current_heads: u16,
    /// Byte 112.
    pub current_sectors_per_track: u16,
    /// Byte 114.
    pub current_sector_capacity: u32,
    /// Byte 118.
    pub current_multi_sector_setting: u8,
    /// Byte 119.
    pub ext_command_supported: u8,
    /// Byte 120: capacity in sectors under 28-bit addressing; zero means
    /// the 48-bit field at byte 200 holds the capacity instead.
    pub user_addressable_sectors: u32,
    /// Byte 126.
    pub multiword_dma_support: u8,
    /// Byte 127.
    pub multiword_dma_active: u8,
    /// Byte 128.
    pub advanced_pio_modes: u8,
    /// Byte 130.
    pub minimum_mw_transfer_cycle_time: u16,
    /// Byte 132.
    pub recommended_mw_transfer_cycle_time: u16,
    /// Byte 134.
    pub minimum_pio_cycle_time: u16,
    /// Byte 136.
    pub minimum_pio_cycle_time_io_ready: u16,
    /// Byte 138.
    pub additional_supported: u16,
    /// Byte 150.
    pub queue_depth: u16,
    /// Byte 152.
    pub serial_ata_capabilities: u32,
    /// Byte 156.
    pub serial_ata_features_supported: u16,
    /// Byte 158.
    pub serial_ata_features_enabled: u16,
    /// Byte 160.
    pub major_revision: u16,
    /// Byte 162.
    pub minor_revision: u16,
    /// Bytes 164..170, three words.
    pub command_set_support: Vec<u16>,
    /// Bytes 170..176, three words.
    pub command_set_active: Vec<u16>,
    /// Byte 176.
    pub ultra_dma_support: u8,
    /// Byte 177.
    pub ultra_dma_active: u8,
    /// Byte 178.
    pub normal_security_erase_unit: u16,
    /// Byte 180.
    pub enhanced_security_erase_unit: u16,
    /// Byte 182.
    pub current_apm_level: u8,
    /// Byte 184.
    pub master_password_id: u16,
    /// Byte 186.
    pub hardware_reset_result: u16,
    /// Byte 188.
    pub current_acoustic_value: u8,
    /// Byte 189.
    pub recommended_acoustic_value: u8,
    /// Byte 190.
    pub stream_min_request_size: u16,
    /// Byte 192.
    pub streaming_transfer_time_dma: u16,
    /// Byte 194.
    pub streaming_access_latency_dma_pio: u16,
    /// Byte 196.
    pub streaming_perf_granularity: u32,
    /// Byte 200: capacity in sectors under 48-bit addressing.
    pub max_48_bit_lba: u64,
    /// Byte 208.
    pub streaming_transfer_time: u16,
    /// Byte 210.
    pub dsm_cap: u16,
    /// Byte 212: physical sector size in logical sectors, bits 0..4.
    pub physical_logical_sector_size: u16,
    /// Byte 214.
    pub inter_seek_delay: u16,
    /// Bytes 216..224, four words.
    pub world_wide_name: Vec<u16>,
    /// Bytes 224..232, four words.
    pub reserved_for_world_wide_name_128: Vec<u16>,
    /// Byte 232.
    pub reserved_for_tlc_technical_report: u16,
    /// Byte 234.
    pub words_per_logical_sector: u32,
    /// Byte 238.
    pub command_set_support_ext: u16,
    /// Byte 240.
    pub command_set_active_ext: u16,
    /// Bytes 242..254, six words.
    pub reserved_for_expanded_support_and_active: Vec<u16>,
    /// Byte 254.
    pub msn_support: u16,
    /// Byte 256.
    pub security_status: u16,
    /// Byte 320.
    pub cfa_power_mode1: u16,
    /// Byte 336.
    pub nominal_form_factor: u16,
    /// Byte 338.
    pub data_set_management_feature: u16,
    /// Bytes 340..348, four words.
    pub additional_product_id: Vec<u16>,
    /// Bytes 352..412, thirty words.
    pub current_media_serial_number: Vec<u16>,
    /// Byte 412.
    pub sct_command_transport: u16,
    /// Byte 418.
    pub block_alignment: u16,
    /// Bytes 420..424, two words.
    pub write_read_verify_sector_count_mode_3_only: Vec<u16>,
    /// Bytes 424..428, two words.
    pub write_read_verify_sector_count_mode_2_only: Vec<u16>,
    /// Byte 428.
    pub nv_cache_capabilities: u16,
    /// Byte 430.
    pub nv_cache_size_lsw: u16,
    /// Byte 432.
    pub nv_cache_size_msw: u16,
    /// Byte 434.
    pub nominal_media_rotation_rate: u16,
    /// Byte 438.
    pub nv_cache_time_to_spin_up_in_seconds: u8,
    /// Byte 440.
    pub write_read_verify_sector_count_mode: u8,
    /// Byte 444.
    pub transport_major_version: u16,
    /// Byte 446.
    pub transport_minor_version: u16,
    /// Byte 460.
    pub extended_num_of_user_addressable_sectors: u64,
    /// Byte 468.
    pub min_blocks_per_download_microcode: u16,
    /// Byte 470.
    pub max_blocks_per_download_microcode: u16,
    /// Byte 510.
    pub signature: u8,
    /// Byte 511.
    pub checksum: u8,
}

/// `d` is the decoding of the 512-byte identify response `b`: every
/// numeric field equals the little-endian value at its offset, and the
/// three text fields are the pair-swapped correction of their bytes.
pub open spec fn parses(b: Seq<u8>, d: AtaIdentifyData) -> bool {
    &&& d.general_configuration == le16(b, 0)
    &&& d.num_cylinders == le16(b, 2)
    &&& d.specific_configuration == le16(b, 4)
    &&& d.num_heads == le16(b, 6)
    &&& d.num_sectors_per_track == le16(b, 12)
    &&& word_run(b, 14, d.vendor_unique1@, 3)
    &&& d.serial_number@ == flip_pairs(b.subrange(20, 40))
    &&& d.firmware_version@ == flip_pairs(b.subrange(46, 54))
    &&& d.model_number@ == flip_pairs(b.subrange(54, 94))
    &&& d.max_blocks_per_transfer == b[94]
    &&& d.vendor_unique2 == b[95]
    &&& d.trusted_computing == le16(b, 96)
    &&& d.capabilities == le16(b, 98)
    &&& d.translation_fields_valid == b[106]
    &&& d.free_fall_control_sensitivity == b[107]
    &&& d.num_current_cylinders == le16(b, 108)
    &&& d.num_current_heads == le16(b, 110)
    &&& d.current_sectors_per_track == le16(b, 112)
    &&& d.current_sector_capacity == le32(b, 114)
    &&& d.current_multi_sector_setting == b[118]
    &&& d.ext_command_supported == b[119]
    &&& d.user_addressable_sectors == le32(b, 120)
    &&& d.multiword_dma_support == b[126]
    &&& d.multiword_dma_active == b[127]
    &&& d.advanced_pio_modes == b[128]
    &&& d.minimum_mw_transfer_cycle_time == le16(b, 130)
    &&& d.recommended_mw_transfer_cycle_time == le16(b, 132)
    &&& d.minimum_pio_cycle_time == le16(b, 134)
    &&& d.minimum_pio_cycle_time_io_ready == le16(b, 136)
    &&& d.additional_supported == le16(b, 138)
    &&& d.queue_depth == le16(b, 150)
    &&& d.serial_ata_capabilities == le32(b, 152)
    &&& d.serial_ata_features_supported == le16(b, 156)
    &&& d.serial_ata_features_enabled == le16(b, 158)
    &&& d.major_revision == le16(b, 160)
    &&& d.minor_revision == le16(b, 162)
    &&& word_run(b, 164, d.command_set_support@, 3)
    &&& word_run(b, 170, d.command_set_active@, 3)
    &&& d.ultra_dma_support == b[176]
    &&& d.ultra_dma_active == b[177]
    &&& d.normal_security_erase_unit == le16(b, 178)
    &&& d.enhanced_security_erase_unit == le16(b, 180)
    &&& d.current_apm_level == b[182]
    &&& d.master_password_id == le16(b, 184)
    &&& d.hardware_reset_result == le16(b, 186)
    &&& d.current_acoustic_value == b[188]
    &&& d.recommended_acoustic_value == b[189]
    &&& d.stream_min_request_size == le16(b, 190)
    &&& d.streaming_transfer_time_dma == le16(b, 192)
    &&& d.streaming_access_latency_dma_pio == le16(b, 194)
    &&& d.streaming_perf_granularity == le32(b, 196)
    &&& d.max_48_bit_lba == le64(b, 200)
    &&& d.streaming_transfer_time == le16(b, 208)
    &&& d.dsm_cap == le16(b, 210)
    &&& d.physical_logical_sector_size == le16(b, 212)
    &&& d.inter_seek_delay == le16(b, 214)
    &&& word_run(b, 216, d.world_wide_name@, 4)
    &&& word_run(b, 224, d.reserved_for_world_wide_name_128@, 4)
    &&& d.reserved_for_tlc_technical_report == le16(b, 232)
    &&& d.words_per_logical_sector == le32(b, 234)
    &&& d.command_set_support_ext == le16(b, 238)
    &&& d.command_set_active_ext == le16(b, 240)
    &&& word_run(b, 242, d.reserved_for_expanded_support_and_active@, 6)
    &&& d.msn_support == le16(b, 254)
    &&& d.security_status == le16(b, 256)
    &&& d.cfa_power_mode1 == le16(b, 320)
    &&& d.nominal_form_factor == le16(b, 336)
    &&& d.data_set_management_feature == le16(b, 338)
    &&& word_run(b, 340, d.additional_product_id@, 4)
    &&& word_run(b, 352, d.current_media_serial_number@, 30)
    &&& d.sct_command_transport == le16(b, 412)
    &&& d.block_alignment == le16(b, 418)
    &&& word_run(b, 420, d.write_read_verify_sector_count_mode_3_only@, 2)
    &&& word_run(b, 424, d.write_read_verify_sector_count_mode_2_only@, 2)
    &&& d.nv_cache_capabilities == le16(b, 428)
    &&& d.nv_cache_size_lsw == le16(b, 430)
    &&& d.nv_cache_size_msw == le16(b, 432)
    &&& d.nominal_media_rotation_rate == le16(b, 434)
    &&& d.nv_cache_time_to_spin_up_in_seconds == b[438]
    &&& d.write_read_verify_sector_count_mode == b[440]
    &&& d.transport_major_version == le16(b, 444)
    &&& d.transport_minor_version == le16(b, 446)
    &&& d.extended_num_of_user_addressable_sectors == le64(b, 460)
    &&& d.min_blocks_per_download_microcode == le16(b, 468)
    &&& d.max_blocks_per_download_microcode == le16(b, 470)
    &&& d.signature == b[510]
    &&& d.checksum == b[511]
}

impl AtaIdentifyData {
    /// Decodes the 512 bytes an identify command returned into the typed
    /// record, correcting the three pair-swapped text fields.
    pub fn new(arr: Vec<u8>) -> (r: AtaIdentifyData)
        requires
            arr@.len() == 512,
        ensures
            parses(arr@, r),
    {
        let mut serial = bytes_range(&arr, 20, 40);
        Self::flip_bytes(&mut serial);
        let mut firmware = bytes_range(&arr, 46, 54);
        Self::flip_bytes(&mut firmware);
        let mut model = bytes_range(&arr, 54, 94);
        Self::flip_bytes(&mut model);
        AtaIdentifyData {
            general_configuration: le16_at(&arr, 0),
            num_cylinders: le16_at(&arr, 2),
            specific_configuration: le16_at(&arr, 4),
            num_heads: le16_at(&arr, 6),
            num_sectors_per_track: le16_at(&arr, 12),
            vendor_unique1: words_at(&arr, 14, 3),
            serial_number: AtaSerialNumber::from_bytes(serial),
            firmware_version: AtaFirmwareVersion::from_bytes(firmware),
            model_number: AtaModelNumber::from_bytes(model),
            max_blocks_per_transfer: arr[94],
            vendor_unique2: arr[95],
            trusted_computing: le16_at(&arr, 96),
            capabilities: le16_at(&arr, 98),
            translation_fields_valid: arr[106],
            free_fall_control_sensitivity: arr[107],
            num_current_cylinders: le16_at(&arr, 108),
            num_current_heads: le16_at(&arr, 110),
            current_sectors_per_track: le16_at(&arr, 112),
            current_sector_capacity: le32_at(&arr, 114),
            current_multi_sector_setting: arr[118],
            ext_command_supported: arr[119],
            user_addressable_sectors: le32_at(&arr, 120),
            multiword_dma_support: arr[126],
            multiword_dma_active: arr[127],
            advanced_pio_modes: arr[128],
            minimum_mw_transfer_cycle_time: le16_at(&arr, 130),
            recommended_mw_transfer_cycle_time: le16_at(&arr, 132),
            minimum_pio_cycle_time: le16_at(&arr, 134),
            minimum_pio_cycle_time_io_ready: le16_at(&arr, 136),
            additional_supported: le16_at(&arr, 138),
            queue_depth: le16_at(&arr, 150),
            serial_ata_capabilities: le32_at(&arr, 152),
            serial_ata_features_supported: le16_at(&arr, 156),
            serial_ata_features_enabled: le16_at(&arr, 158),
            major_revision: le16_at(&arr, 160),
            minor_revision: le16_at(&arr, 162),
            command_set_support: words_at(&arr, 164, 3),
            command_set_active: words_at(&arr, 170, 3),
            ultra_dma_support: arr[176],
            ultra_dma_active: arr[177],
            normal_security_erase_unit: le16_at(&arr, 178),
            enhanced_security_erase_unit: le16_at(&arr, 180),
            current_apm_level: arr[182],
            master_password_id: le16_at(&arr, 184),
            hardware_reset_result: le16_at(&arr, 186),
            current_acoustic_value: arr[188],
            recommended_acoustic_value: arr[189],
            stream_min_request_size: le16_at(&arr, 190),
            streaming_transfer_time_dma: le16_at(&arr, 192),
            streaming_access_latency_dma_pio: le16_at(&arr, 194),
            streaming_perf_granularity: le32_at(&arr, 196),
            max_48_bit_lba: le64_at(&arr, 200),
            streaming_transfer_time: le16_at(&arr, 208),
            dsm_cap: le16_at(&arr, 210),
            physical_logical_sector_size: le16_at(&arr, 212),
            inter_seek_delay: le16_at(&arr, 214),
            world_wide_name: words_at(&arr, 216, 4),
            reserved_for_world_wide_name_128: words_at(&arr, 224, 4),
            reserved_for_tlc_technical_report: le16_at(&arr, 232),
            words_per_logical_sector: le32_at(&arr, 234),
            command_set_support_ext: le16_at(&arr, 238),
            command_set_active_ext: le16_at(&arr, 240),
            reserved_for_expanded_support_and_active: words_at(&arr, 242, 6),
            msn_support: le16_at(&arr, 254),
            security_status: le16_at(&arr, 256),
            cfa_power_mode1: le16_at(&arr, 320),
            nominal_form_factor: le16_at(&arr, 336),
            data_set_management_feature: le16_at(&arr, 338),
            additional_product_id: words_at(&arr, 340, 4),
            current_media_serial_number: words_at(&arr, 352, 30),
            sct_command_transport: le16_at(&arr, 412),
            block_alignment: le16_at(&arr, 418),
            write_read_verify_sector_count_mode_3_only: words_at(&arr, 420, 2),
            write_read_verify_sector_count_mode_2_only: words_at(&arr, 424, 2),
            nv_cache_capabilities: le16_at(&arr, 428),
            nv_cache_size_lsw: le16_at(&arr, 430),
            nv_cache_size_msw: le16_at(&arr, 432),
            nominal_media_rotation_rate: le16_at(&arr, 434),
            nv_cache_time_to_spin_up_in_seconds: arr[438],
            write_read_verify_sector_count_mode: arr[440],
            transport_major_version: le16_at(&arr, 444),
            transport_minor_version: le16_at(&arr, 446),
            extended_num_of_user_addressable_sectors: le64_at(&arr, 460),
            min_blocks_per_download_microcode: le16_at(&arr, 468),
            max_blocks_per_download_microcode: le16_at(&arr, 470),
            signature: arr[510],
            checksum: arr[511],
        }
    }

    /// Exchanges each adjacent pair of bytes, rectifying the quasi-endian
    /// storage of the identify response's text fields.
    pub fn flip_bytes(bytes: &mut Vec<u8>)
        requires
            old(bytes)@.len() % 2 == 0,
            old(bytes)@.len() <= usize::MAX,
        ensures
            final(bytes)@ == flip_pairs(old(bytes)@),
    {
        let mut i: usize = 0;
        while i < bytes.len()
            invariant
                bytes@.len() == old(bytes)@.len(),
                old(bytes)@.len() % 2 == 0,
                i % 2 == 0,
                i <= bytes@.len(),
                forall|j: int| 0 <= j < i ==> bytes@[j] == flip_pairs(old(bytes)@)[j],
                forall|j: int| i <= j < bytes@.len() ==> bytes@[j] == old(bytes)@[j],
            decreases bytes@.len() - i,
        {
            let lo = bytes[i];
            let hi = bytes[i + 1];
            bytes.set(i, hi);
            bytes.set(i + 1, lo);
            i = i + 2;
        }
        proof {
            assert(bytes@ =~= flip_pairs(old(bytes)@));
        }
    }
}

} // verus!
