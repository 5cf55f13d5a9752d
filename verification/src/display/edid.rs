//! Sovereign EDID override: derive a monitor profile and a refresh ceiling from raw EDID data.
use vstd::prelude::*;

verus! {

/// Processed monitor capability profile after Utah-OS optimization.
#[derive(Clone, Copy, Debug)]
pub struct MonitorCapabilitiesProfile {
    pub manufacturer_id: [u8; 3],
    pub product_code: u16,
    pub absolute_max_pixel_clock_megahertz: u32,
    pub supports_high_dynamic_range_hdr: bool,
    pub optimized_refresh_rate_ceiling_hz: u32,
}

/// The refresh ceiling tier for a maximum pixel clock in MHz.
pub open spec fn refresh_ceiling_for(clock_mhz: int) -> u32 {
    if clock_mhz > 300 {
        240
    } else if clock_mhz > 150 {
        144
    } else if clock_mhz > 0 {
        75
    } else {
        60
    }
}

/// The three manufacturer letters: bytes 8 and 9 read big-endian hold three 5-bit codes
/// (bits 14..10, 9..5 and 4..0), each offset by 64 ('A' is code 1).
pub open spec fn manufacturer_letters(b8: u8, b9: u8) -> Seq<u8> {
    seq![
        ((b8 / 4) % 32 + 64) as u8,
        ((b8 % 4) * 8 + b9 / 32 + 64) as u8,
        (b9 % 32 + 64) as u8,
    ]
}

/// Maximum pixel clock in MHz from the first detailed timing descriptor (bytes 54 and 55,
/// little-endian, in units of 10 kHz).
pub open spec fn pixel_clock_mhz(b54: u8, b55: u8) -> int {
    ((b55 as int) * 256 + b54) * 10 / 1000
}

impl MonitorCapabilitiesProfile {
    /// Parses a 128-byte EDID block and applies performance-oriented refresh ceilings.
    pub fn parse_and_optimize_edid(raw_edid_byte_matrix: &[u8; 128]) -> (profile: Self)
        ensures
            profile.manufacturer_id@ == manufacturer_letters(raw_edid_byte_matrix@[8], raw_edid_byte_matrix@[9]),
            profile.product_code == (raw_edid_byte_matrix@[11] as int) * 256 + raw_edid_byte_matrix@[10],
            profile.absolute_max_pixel_clock_megahertz == pixel_clock_mhz(raw_edid_byte_matrix@[54], raw_edid_byte_matrix@[55]),
            profile.supports_high_dynamic_range_hdr == (raw_edid_byte_matrix@[20] >= 0x80),
            profile.optimized_refresh_rate_ceiling_hz == refresh_ceiling_for(
                pixel_clock_mhz(raw_edid_byte_matrix@[54], raw_edid_byte_matrix@[55]),
            ),
    {
        let b8 = raw_edid_byte_matrix[8];
        let b9 = raw_edid_byte_matrix[9];
        let raw_manufacturer_bits: u16 = ((b8 as u16) << 8) | (b9 as u16);
        assert(((((b8 as u16) << 8) | (b9 as u16)) >> 10) & 0x1F == (b8 / 4) % 32) by (bit_vector);
        assert(((((b8 as u16) << 8) | (b9 as u16)) >> 5) & 0x1F == (b8 % 4) * 8 + b9 / 32) by (bit_vector);
        assert((((b8 as u16) << 8) | (b9 as u16)) & 0x1F == b9 % 32) by (bit_vector);
        let first: u16 = ((raw_manufacturer_bits >> 10) & 0x1F) + 64;
        let second: u16 = ((raw_manufacturer_bits >> 5) & 0x1F) + 64;
        let third: u16 = (raw_manufacturer_bits & 0x1F) + 64;
        let manufacturer_id: [u8; 3] = [first as u8, second as u8, third as u8];

        let b10 = raw_edid_byte_matrix[10];
        let b11 = raw_edid_byte_matrix[11];
        let product_code: u16 = ((b11 as u16) << 8) | (b10 as u16);
        assert((((b11 as u16) << 8) | (b10 as u16)) == (b11 as u16) * 256 + (b10 as u16)) by (bit_vector);

        let b54 = raw_edid_byte_matrix[54];
        let b55 = raw_edid_byte_matrix[55];
        let base_pixel_clock_tens_of_khz: u32 = ((b55 as u32) << 8) | (b54 as u32);
        assert((((b55 as u32) << 8) | (b54 as u32)) == (b55 as u32) * 256 + (b54 as u32)) by (bit_vector);
        let realized_max_clock_mhz: u32 = (base_pixel_clock_tens_of_khz * 10) / 1000;

        let digital_input_definition_byte = raw_edid_byte_matrix[20];
        let supports_high_dynamic_range_hdr = (digital_input_definition_byte & 0x80) != 0;
        assert((digital_input_definition_byte & 0x80) != 0 <==> digital_input_definition_byte >= 0x80) by (bit_vector);

        let optimized_refresh_rate_ceiling_hz: u32 = if realized_max_clock_mhz > 300 {
            240
        } else if realized_max_clock_mhz > 150 {
            144
        } else if realized_max_clock_mhz > 0 {
            75
        } else {
            60
        };
        let profile = MonitorCapabilitiesProfile {
            manufacturer_id,
            product_code,
            absolute_max_pixel_clock_megahertz: realized_max_clock_mhz,
            supports_high_dynamic_range_hdr,
            optimized_refresh_rate_ceiling_hz,
        };
        assert(profile.manufacturer_id@ =~= manufacturer_letters(b8, b9));
        profile
    }

    /// Default profile when no GOP/DDC probe is available (QEMU / early boot).
    pub fn simulated_primary() -> (profile: Self)
        ensures
            profile.manufacturer_id@ == seq![83u8, 73u8, 77u8],
            profile.product_code == 0,
            profile.absolute_max_pixel_clock_megahertz == 240,
            !profile.supports_high_dynamic_range_hdr,
            profile.optimized_refresh_rate_ceiling_hz == 144,
    {
        let profile = MonitorCapabilitiesProfile {
            manufacturer_id: [83u8, 73u8, 77u8],
            product_code: 0,
            absolute_max_pixel_clock_megahertz: 240,
            supports_high_dynamic_range_hdr: false,
            optimized_refresh_rate_ceiling_hz: 144,
        };
        assert(profile.manufacturer_id@ =~= seq![83u8, 73u8, 77u8]);
        profile
    }

    /// Default profile of the auxiliary head.
    pub fn simulated_secondary() -> (profile: Self)
        ensures
            profile.manufacturer_id@ == seq![65u8, 85u8, 88u8],
            profile.product_code == 0,
            profile.absolute_max_pixel_clock_megahertz == 140,
            !profile.supports_high_dynamic_range_hdr,
            profile.optimized_refresh_rate_ceiling_hz == 75,
    {
        let profile = MonitorCapabilitiesProfile {
            manufacturer_id: [65u8, 85u8, 88u8],
            product_code: 0,
            absolute_max_pixel_clock_megahertz: 140,
            supports_high_dynamic_range_hdr: false,
            optimized_refresh_rate_ceiling_hz: 75,
        };
        assert(profile.manufacturer_id@ =~= seq![65u8, 85u8, 88u8]);
        profile
    }
}

/// Law: the refresh ceiling never decreases as the pixel clock grows, and always is one of
/// the four tiers.
pub proof fn law_refresh_ceiling_monotone(low: int, high: int)
    requires
        low <= high,
    ensures
        refresh_ceiling_for(low) <= refresh_ceiling_for(high),
        refresh_ceiling_for(high) == 60 || refresh_ceiling_for(high) == 75 || refresh_ceiling_for(high) == 144
            || refresh_ceiling_for(high) == 240,
{
}

} // verus!
