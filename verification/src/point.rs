use vstd::prelude::*;

use crate::bytes::{as_i8, get_i16, get_i32, get_u16, get_u32, get_u64, get_u8, le16, le32, le64,
    le_i16, le_i32, lemma_le16_bound, lemma_le32_bound, lemma_le64_bound};
use crate::error::LasError;
use crate::header::{min_record_len, spec_min_record_len};

verus! {

/// A 16-bit-per-channel RGB color.
#[derive(Debug, Clone, Copy, PartialEq, Eq, Structural)]
pub struct Color {
    pub red: u16,
    pub green: u16,
    pub blue: u16,
}

/// The waveform sub-record carried by layouts 4, 5, 9 and 10. The three
/// parametric line components and the return point location are singles,
/// surfaced as raw IEEE-754 bit patterns.
#[derive(Debug, Clone, Copy, PartialEq, Eq, Structural)]
pub struct WavePacket {
    pub descriptor_index: u8,
    pub byte_offset: u64,
    pub size_in_bytes: u32,
    pub return_point_location_bits: u32,
    pub x_t_bits: u32,
    pub y_t_bits: u32,
    pub z_t_bits: u32,
}

/// One decoded point record, produced fresh per read.
///
/// Coordinates are the raw signed 32-bit values from the record; the real
/// position is `raw * scale + offset` with the header's per-axis transform,
/// applied by the caller in double precision. The scan angle is raw as
/// well: whole degrees in layouts 0 through 5, units of 0.006 degrees in
/// layouts 6 through 10.
#[derive(Debug, PartialEq)]
pub struct Point {
    pub x_raw: i32,
    pub y_raw: i32,
    pub z_raw: i32,
    pub intensity: u16,
    pub return_number: u8,
    pub number_of_returns: u8,
    pub scan_direction_flag: bool,
    pub edge_of_flight_line: bool,
    /// 0 through 31 in layouts 0 through 5; the full byte in 6 through 10.
    pub classification: u8,
    pub is_synthetic: bool,
    pub is_key_point: bool,
    pub is_withheld: bool,
    /// Layouts 0 through 5 carry no overlap flag; it is false there.
    pub is_overlap: bool,
    /// Layouts 0 through 5 carry no scanner channel; it is 0 there.
    pub scanner_channel: u8,
    pub scan_angle_raw: i16,
    pub user_data: u8,
    pub point_source_id: u16,
    /// GPS time as a double's bit pattern, for the layouts that carry it.
    pub gps_time_bits: Option<u64>,
    pub color: Option<Color>,
    /// Near-infrared channel, layouts 8 and 10 only.
    pub nir: Option<u16>,
    pub wave_packet: Option<WavePacket>,
}

/// Which layouts carry a GPS time stamp.
pub open spec fn fmt_has_gps(id: u8) -> bool {
    id == 1 || id == 3 || id == 4 || id == 5 || id >= 6
}

/// Which layouts carry an RGB color.
pub open spec fn fmt_has_color(id: u8) -> bool {
    id == 2 || id == 3 || id == 5 || id == 7 || id == 8 || id == 10
}

/// Which layouts carry a near-infrared channel.
pub open spec fn fmt_has_nir(id: u8) -> bool {
    id == 8 || id == 10
}

/// Which layouts carry a waveform sub-record.
pub open spec fn fmt_has_wave(id: u8) -> bool {
    id == 4 || id == 5 || id == 9 || id == 10
}

/// Byte offset of the GPS time within a record of the given layout.
pub open spec fn gps_offset(id: u8) -> int {
    if id <= 5 {
        20
    } else {
        22
    }
}

/// Byte offset of the RGB color within a record of the given layout.
pub open spec fn color_offset(id: u8) -> int {
    if id == 2 {
        20
    } else if id == 3 || id == 5 {
        28
    } else {
        30
    }
}

/// Byte offset of the waveform sub-record within a record of the given layout.
pub open spec fn wave_offset(id: u8) -> int {
    if id == 4 {
        28
    } else if id == 5 {
        34
    } else if id == 9 {
        30
    } else {
        38
    }
}

/// The waveform sub-record starting at byte `at`.
pub open spec fn wave_at(d: Seq<u8>, at: int) -> WavePacket {
    WavePacket {
        descriptor_index: d[at],
        byte_offset: le64(d, at + 1) as u64,
        size_in_bytes: le32(d, at + 9) as u32,
        return_point_location_bits: le32(d, at + 13) as u32,
        x_t_bits: le32(d, at + 17) as u32,
        y_t_bits: le32(d, at + 21) as u32,
        z_t_bits: le32(d, at + 25) as u32,
    }
}

/// The color sub-record starting at byte `at`.
pub open spec fn color_at(d: Seq<u8>, at: int) -> Color {
    Color {
        red: le16(d, at) as u16,
        green: le16(d, at + 2) as u16,
        blue: le16(d, at + 4) as u16,
    }
}

/// The point a record of layout `id` decodes to: each field read at the
/// offset and with the bit packing the layout prescribes.
///
/// In layouts 0 through 5 byte 14 packs return number (bits 0-2), number
/// of returns (3-5), scan direction (6) and edge of flight line (7), and
/// byte 15 packs the classification (bits 0-4) with the synthetic,
/// key-point and withheld flags (5-7). In layouts 6 through 10 byte 14
/// packs return number (bits 0-3) and number of returns (4-7), and byte 15
/// packs the four flags (bits 0-3), the scanner channel (4-5), scan
/// direction (6) and edge of flight line (7); the classification is a full
/// separate byte.
pub open spec fn decoded_point(id: u8, d: Seq<u8>) -> Point {
    Point {
        x_raw: le_i32(d, 0) as i32,
        y_raw: le_i32(d, 4) as i32,
        z_raw: le_i32(d, 8) as i32,
        intensity: le16(d, 12) as u16,
        return_number: if id <= 5 {
            d[14] & 0x07
        } else {
            d[14] & 0x0F
        },
        number_of_returns: if id <= 5 {
            (d[14] >> 3) & 0x07
        } else {
            (d[14] >> 4) & 0x0F
        },
        scan_direction_flag: if id <= 5 {
            (d[14] >> 6) & 1 == 1
        } else {
            (d[15] >> 6) & 1 == 1
        },
        edge_of_flight_line: if id <= 5 {
            (d[14] >> 7) & 1 == 1
        } else {
            (d[15] >> 7) & 1 == 1
        },
        classification: if id <= 5 {
            d[15] & 0x1F
        } else {
            d[16]
        },
        is_synthetic: if id <= 5 {
            (d[15] >> 5) & 1 == 1
        } else {
            d[15] & 1 == 1
        },
        is_key_point: if id <= 5 {
            (d[15] >> 6) & 1 == 1
        } else {
            (d[15] >> 1) & 1 == 1
        },
        is_withheld: if id <= 5 {
            (d[15] >> 7) & 1 == 1
        } else {
            (d[15] >> 2) & 1 == 1
        },
        is_overlap: if id <= 5 {
            false
        } else {
            (d[15] >> 3) & 1 == 1
        },
        scanner_channel: if id <= 5 {
            0
        } else {
            (d[15] >> 4) & 0x03
        },
        scan_angle_raw: if id <= 5 {
            as_i8(d[16]) as i16
        } else {
            le_i16(d, 18) as i16
        },
        user_data: d[17],
        point_source_id: if id <= 5 {
            le16(d, 18) as u16
        } else {
            le16(d, 20) as u16
        },
        gps_time_bits: if fmt_has_gps(id) {
            Some(le64(d, gps_offset(id)) as u64)
        } else {
            None
        },
        color: if fmt_has_color(id) {
            Some(color_at(d, color_offset(id)))
        } else {
            None
        },
        nir: if fmt_has_nir(id) {
            Some(le16(d, 36) as u16)
        } else {
            None
        },
        wave_packet: if fmt_has_wave(id) {
            Some(wave_at(d, wave_offset(id)))
        } else {
            None
        },
    }
}

/// Reads the color sub-record at `at`.
fn read_color(d: &Vec<u8>, at: usize) -> (r: Color)
    requires
        at + 6 <= d.len(),
    ensures
        r == color_at(d@, at as int),
{
    proof {
        lemma_le16_bound(d@, at as int);
        lemma_le16_bound(d@, at + 2);
        lemma_le16_bound(d@, at + 4);
    }
    Color { red: get_u16(d, at), green: get_u16(d, at + 2), blue: get_u16(d, at + 4) }
}

/// Reads the waveform sub-record at `at`.
fn read_wave(d: &Vec<u8>, at: usize) -> (r: WavePacket)
    requires
        at + 29 <= d.len(),
    ensures
        r == wave_at(d@, at as int),
{
    proof {
        lemma_le64_bound(d@, at + 1);
        lemma_le32_bound(d@, at + 9);
        lemma_le32_bound(d@, at + 13);
        lemma_le32_bound(d@, at + 17);
        lemma_le32_bound(d@, at + 21);
        lemma_le32_bound(d@, at + 25);
    }
    WavePacket {
        descriptor_index: get_u8(d, at),
        byte_offset: get_u64(d, at + 1),
        size_in_bytes: get_u32(d, at + 9),
        return_point_location_bits: get_u32(d, at + 13),
        x_t_bits: get_u32(d, at + 17),
        y_t_bits: get_u32(d, at + 21),
        z_t_bits: get_u32(d, at + 25),
    }
}

/// Decodes one raw point record of layout `id`.
///
/// The slice must hold the whole record: at least the layout's canonical
/// size (a longer record carries per-file extra bytes, which are ignored
/// here but never change the standard fields). Decoding is a pure function
/// of the layout id and the bytes; no state crosses records.
pub fn decode_record(id: u8, d: &Vec<u8>) -> (r: Result<Point, LasError>)
    ensures
        id > 10 ==> r == Err::<Point, LasError>(LasError::UnknownLayout { id }),
        id <= 10 && d.len() < spec_min_record_len(id) ==> r == Err::<Point, LasError>(
            LasError::TruncatedInput {
                offset: 0,
                needed: spec_min_record_len(id) as usize,
                available: d.len(),
            },
        ),
        id <= 10 && d.len() >= spec_min_record_len(id) ==> r == Ok::<Point, LasError>(
            decoded_point(id, d@),
        ),
{
    if id > 10 {
        return Err(LasError::UnknownLayout { id });
    }
    let need = min_record_len(id) as usize;
    if d.len() < need {
        return Err(LasError::TruncatedInput { offset: 0, needed: need, available: d.len() });
    }
    proof {
        lemma_le16_bound(d@, 12);
        if id <= 5 {
            lemma_le16_bound(d@, 18);
        } else {
            lemma_le16_bound(d@, 20);
        }
        if fmt_has_gps(id) {
            lemma_le64_bound(d@, gps_offset(id));
        }
        if fmt_has_nir(id) {
            lemma_le16_bound(d@, 36);
        }
    }
    let b14 = get_u8(d, 14);
    let b15 = get_u8(d, 15);
    let legacy = id <= 5;
    let scan_angle_raw: i16 = if legacy {
        let b = get_u8(d, 16);
        if b >= 0x80 {
            (b as i16) - 0x100
        } else {
            b as i16
        }
    } else {
        get_i16(d, 18)
    };
    let p = Point {
        x_raw: get_i32(d, 0),
        y_raw: get_i32(d, 4),
        z_raw: get_i32(d, 8),
        intensity: get_u16(d, 12),
        return_number: if legacy {
            b14 & 0x07
        } else {
            b14 & 0x0F
        },
        number_of_returns: if legacy {
            (b14 >> 3) & 0x07
        } else {
            (b14 >> 4) & 0x0F
        },
        scan_direction_flag: if legacy {
            (b14 >> 6) & 1 == 1
        } else {
            (b15 >> 6) & 1 == 1
        },
        edge_of_flight_line: if legacy {
            (b14 >> 7) & 1 == 1
        } else {
            (b15 >> 7) & 1 == 1
        },
        classification: if legacy {
            b15 & 0x1F
        } else {
            get_u8(d, 16)
        },
        is_synthetic: if legacy {
            (b15 >> 5) & 1 == 1
        } else {
            b15 & 1 == 1
        },
        is_key_point: if legacy {
            (b15 >> 6) & 1 == 1
        } else {
            (b15 >> 1) & 1 == 1
        },
        is_withheld: if legacy {
            (b15 >> 7) & 1 == 1
        } else {
            (b15 >> 2) & 1 == 1
        },
        is_overlap: if legacy {
            false
        } else {
            (b15 >> 3) & 1 == 1
        },
        scanner_channel: if legacy {
            0
        } else {
            (b15 >> 4) & 0x03
        },
        scan_angle_raw,
        user_data: get_u8(d, 17),
        point_source_id: if legacy {
            get_u16(d, 18)
        } else {
            get_u16(d, 20)
        },
        gps_time_bits: if id == 1 || id == 3 || id == 4 || id == 5 {
            Some(get_u64(d, 20))
        } else if id >= 6 {
            Some(get_u64(d, 22))
        } else {
            None
        },
        color: if id == 2 {
            Some(read_color(d, 20))
        } else if id == 3 || id == 5 {
            Some(read_color(d, 28))
        } else if id == 7 || id == 8 || id == 10 {
            Some(read_color(d, 30))
        } else {
            None
        },
        nir: if id == 8 || id == 10 {
            Some(get_u16(d, 36))
        } else {
            None
        },
        wave_packet: if id == 4 {
            Some(read_wave(d, 28))
        } else if id == 5 {
            Some(read_wave(d, 34))
        } else if id == 9 {
            Some(read_wave(d, 30))
        } else if id == 10 {
            Some(read_wave(d, 38))
        } else {
            None
        },
    };
    proof {
        assert(p == decoded_point(id, d@));
    }
    Ok(p)
}

} // verus!
