use vstd::prelude::*;

use crate::bytes::{copy_range, copy_trimmed, get_u16, get_u32, get_u64, get_u8, le16, le32, le64,
    lemma_le16_bound, lemma_le32_bound, lemma_le64_bound, trim_pad};
use crate::error::LasError;

verus! {

/// Three per-axis doubles, stored as raw IEEE-754 bit patterns.
#[derive(Debug, Clone, Copy, PartialEq, Eq, Structural)]
pub struct VectorBits {
    pub x: u64,
    pub y: u64,
    pub z: u64,
}

/// A variable-length record: a descriptor plus an opaque payload.
/// Unknown record ids are retained, never fatal.
#[derive(Debug, PartialEq)]
pub struct Vlr {
    /// The 16-byte user id with its trailing padding removed.
    pub user_id: Vec<u8>,
    pub record_id: u16,
    /// The 32-byte description with its trailing padding removed.
    pub description: Vec<u8>,
    /// The raw payload, `record length` bytes.
    pub data: Vec<u8>,
}

/// The mathematical value of a [`Vlr`].
pub ghost struct VlrModel {
    pub user_id: Seq<u8>,
    pub record_id: u16,
    pub description: Seq<u8>,
    pub data: Seq<u8>,
}

impl View for Vlr {
    type V = VlrModel;

    open spec fn view(&self) -> VlrModel {
        VlrModel {
            user_id: self.user_id@,
            record_id: self.record_id,
            description: self.description@,
            data: self.data@,
        }
    }
}

/// The parsed file header, immutable once parsed.
#[derive(Debug, PartialEq)]
pub struct Header {
    pub version_major: u8,
    pub version_minor: u8,
    pub header_size: u16,
    pub offset_to_point_data: u32,
    /// The point-record layout id, 0 through 10, compression bit stripped.
    pub point_format: u8,
    /// Whether the point data is LAZ-compressed (bit 7 of the format byte).
    pub is_compressed: bool,
    pub point_record_length: u16,
    pub number_of_points: u64,
    /// Count of points by return number: 5 entries up to version 1.3,
    /// 15 entries for version 1.4.
    pub points_by_return: Vec<u64>,
    pub scale: VectorBits,
    pub offset: VectorBits,
    pub bounds_min: VectorBits,
    pub bounds_max: VectorBits,
    pub system_identifier: Vec<u8>,
    pub generating_software: Vec<u8>,
    /// Day of the year, 1 through 366.
    pub creation_day: u16,
    pub creation_year: u16,
    pub vlrs: Vec<Vlr>,
}

/// The mathematical value of a [`Header`].
pub ghost struct HeaderModel {
    pub version_major: u8,
    pub version_minor: u8,
    pub header_size: u16,
    pub offset_to_point_data: u32,
    pub point_format: u8,
    pub is_compressed: bool,
    pub point_record_length: u16,
    pub number_of_points: u64,
    pub points_by_return: Seq<u64>,
    pub scale: VectorBits,
    pub offset: VectorBits,
    pub bounds_min: VectorBits,
    pub bounds_max: VectorBits,
    pub system_identifier: Seq<u8>,
    pub generating_software: Seq<u8>,
    pub creation_day: u16,
    pub creation_year: u16,
    pub vlrs: Seq<VlrModel>,
}

impl View for Header {
    type V = HeaderModel;

    open spec fn view(&self) -> HeaderModel {
        HeaderModel {
            version_major: self.version_major,
            version_minor: self.version_minor,
            header_size: self.header_size,
            offset_to_point_data: self.offset_to_point_data,
            point_format: self.point_format,
            is_compressed: self.is_compressed,
            point_record_length: self.point_record_length,
            number_of_points: self.number_of_points,
            points_by_return: self.points_by_return@,
            scale: self.scale,
            offset: self.offset,
            bounds_min: self.bounds_min,
            bounds_max: self.bounds_max,
            system_identifier: self.system_identifier@,
            generating_software: self.generating_software@,
            creation_day: self.creation_day,
            creation_year: self.creation_year,
            vlrs: self.vlrs@.map_values(|v: Vlr| v@),
        }
    }
}

/// The file starts with the ASCII magic "LASF".
pub open spec fn magic_ok(d: Seq<u8>) -> bool {
    &&& d.len() >= 4
    &&& d[0] == 0x4C
    &&& d[1] == 0x41
    &&& d[2] == 0x53
    &&& d[3] == 0x46
}

/// The smallest legal header size for a minor version: 227 bytes up to
/// 1.2, 235 for 1.3 (which appends a waveform offset), 375 for 1.4.
pub open spec fn spec_min_header_size(minor: u8) -> int {
    if minor == 4 {
        375
    } else if minor == 3 {
        235
    } else {
        227
    }
}

/// The canonical size of the mandatory fields of a point-record layout.
/// A header may declare a larger record length (per-file extra bytes),
/// never a smaller one.
pub open spec fn spec_min_record_len(id: u8) -> int {
    if id == 0 {
        20
    } else if id == 1 {
        28
    } else if id == 2 {
        26
    } else if id == 3 {
        34
    } else if id == 4 {
        57
    } else if id == 5 {
        63
    } else if id == 6 {
        30
    } else if id == 7 {
        36
    } else if id == 8 {
        38
    } else if id == 9 {
        59
    } else {
        67
    }
}

/// Executable form of [`spec_min_record_len`].
pub fn min_record_len(id: u8) -> (r: u16)
    requires
        id <= 10,
    ensures
        r as int == spec_min_record_len(id),
{
    if id == 0 {
        20
    } else if id == 1 {
        28
    } else if id == 2 {
        26
    } else if id == 3 {
        34
    } else if id == 4 {
        57
    } else if id == 5 {
        63
    } else if id == 6 {
        30
    } else if id == 7 {
        36
    } else if id == 8 {
        38
    } else if id == 9 {
        59
    } else {
        67
    }
}

/// Whether a double's bit pattern encodes zero (either sign).
pub open spec fn f64_bits_is_zero(b: u64) -> bool {
    b & 0x7FFF_FFFF_FFFF_FFFF == 0
}

/// Whether a double's bit pattern encodes a NaN: all exponent bits set and
/// a nonzero mantissa.
pub open spec fn f64_bits_nan(b: u64) -> bool {
    (b >> 52) & 0x7FF == 0x7FF && b & 0x000F_FFFF_FFFF_FFFF != 0
}

/// A double's bit pattern with the two zeros identified: the negative zero
/// becomes the positive one, so that the bit order below treats them as
/// the single value they encode.
pub open spec fn f64_bits_canon(b: u64) -> u64 {
    if b == 0x8000_0000_0000_0000 {
        0
    } else {
        b
    }
}

/// The numeric order on double bit patterns: neither may be a NaN (a NaN
/// bound compares with nothing), the two zeros are equal, every other
/// negative value precedes every non-negative one, non-negative values
/// order as their bits, and negative values order as their bits reversed —
/// which is the numeric order of IEEE-754 sign-magnitude patterns.
pub open spec fn f64_bits_le(a: u64, b: u64) -> bool {
    let x = f64_bits_canon(a);
    let y = f64_bits_canon(b);
    &&& !f64_bits_nan(a)
    &&& !f64_bits_nan(b)
    &&& if (x >> 63) != (y >> 63) {
        (x >> 63) == 1
    } else if (x >> 63) == 0 {
        x <= y
    } else {
        y <= x
    }
}

/// Executable form of [`f64_bits_is_zero`].
pub fn f64_bits_is_zero_exec(b: u64) -> (r: bool)
    ensures
        r == f64_bits_is_zero(b),
{
    b & 0x7FFF_FFFF_FFFF_FFFF == 0
}

/// Executable form of [`f64_bits_nan`].
pub fn f64_bits_nan_exec(b: u64) -> (r: bool)
    ensures
        r == f64_bits_nan(b),
{
    (b >> 52) & 0x7FF == 0x7FF && b & 0x000F_FFFF_FFFF_FFFF != 0
}

/// Executable form of [`f64_bits_le`].
pub fn f64_bits_le_exec(a: u64, b: u64) -> (r: bool)
    ensures
        r == f64_bits_le(a, b),
{
    if f64_bits_nan_exec(a) || f64_bits_nan_exec(b) {
        return false;
    }
    let x: u64 = if a == 0x8000_0000_0000_0000 {
        0
    } else {
        a
    };
    let y: u64 = if b == 0x8000_0000_0000_0000 {
        0
    } else {
        b
    };
    if (x >> 63) != (y >> 63) {
        (x >> 63) == 1
    } else if (x >> 63) == 0 {
        x <= y
    } else {
        y <= x
    }
}

/// The sum of a sequence of per-return counts.
pub open spec fn sum_of(s: Seq<u64>) -> int
    decreases s.len(),
{
    if s.len() == 0 {
        0
    } else {
        sum_of(s.drop_last()) + s.last()
    }
}

/// The legacy 32-bit counts of points by return, five entries.
pub open spec fn legacy_by_return(d: Seq<u8>) -> Seq<u64> {
    Seq::new(5, |i: int| le32(d, 111 + 4 * i) as u64)
}

/// The extended 64-bit counts of points by return, fifteen entries.
pub open spec fn ext_by_return(d: Seq<u8>) -> Seq<u64> {
    Seq::new(15, |i: int| le64(d, 255 + 8 * i) as u64)
}

/// The truncation error for a fixed region of `needed` bytes from the
/// start of the file.
pub open spec fn trunc_at_start(needed: int, len: int) -> LasError {
    LasError::TruncatedInput { offset: 0, needed: needed as usize, available: len as usize }
}

/// The VLR whose descriptor starts at `pos`.
pub open spec fn vlr_at(d: Seq<u8>, pos: int) -> VlrModel {
    VlrModel {
        user_id: trim_pad(d.subrange(pos + 2, pos + 18)),
        record_id: le16(d, pos + 18) as u16,
        description: trim_pad(d.subrange(pos + 22, pos + 54)),
        data: d.subrange(pos + 54, pos + 54 + le16(d, pos + 20)),
    }
}

/// Parses `n` variable-length records starting at `pos`: each is a fixed
/// 54-byte descriptor followed by its declared payload. Returns the records
/// and the position just past the last one.
pub open spec fn spec_parse_vlrs(d: Seq<u8>, pos: int, n: int) -> Result<
    (Seq<VlrModel>, int),
    LasError,
>
    decreases n,
{
    if n <= 0 {
        Ok((Seq::empty(), pos))
    } else if pos + 54 > d.len() {
        Err(
            LasError::TruncatedInput {
                offset: pos as usize,
                needed: 54,
                available: if pos <= d.len() {
                    (d.len() - pos) as usize
                } else {
                    0
                },
            },
        )
    } else {
        let rl = le16(d, pos + 20);
        if pos + 54 + rl > d.len() {
            Err(
                LasError::TruncatedInput {
                    offset: (pos + 54) as usize,
                    needed: rl as usize,
                    available: (d.len() - (pos + 54)) as usize,
                },
            )
        } else {
            match spec_parse_vlrs(d, pos + 54 + rl, n - 1) {
                Ok(rest) => Ok((seq![vlr_at(d, pos)] + rest.0, rest.1)),
                Err(e) => Err(e),
            }
        }
    }
}

/// What `parse_header` computes, stated over the raw bytes: the header's
/// fields at their per-version offsets, or the first error a left-to-right
/// scan of the file discovers.
pub open spec fn spec_parse_header(d: Seq<u8>) -> Result<HeaderModel, LasError> {
    if d.len() < 4 {
        Err(trunc_at_start(4, d.len() as int))
    } else if !magic_ok(d) {
        Err(LasError::BadMagic)
    } else if d.len() < 227 {
        Err(trunc_at_start(227, d.len() as int))
    } else if !(d[24] == 1 && d[25] <= 4) {
        Err(LasError::UnsupportedVersion { major: d[24], minor: d[25] })
    } else if d[25] == 4 && d.len() < 375 {
        Err(trunc_at_start(375, d.len() as int))
    } else {
        let minor = d[25];
        let header_size = le16(d, 94);
        let opd = le32(d, 96);
        let fmt_byte = d[104];
        let id = fmt_byte & 0x7F;
        let rlen = le16(d, 105);
        let scale = VectorBits {
            x: le64(d, 131) as u64,
            y: le64(d, 139) as u64,
            z: le64(d, 147) as u64,
        };
        let offset = VectorBits {
            x: le64(d, 155) as u64,
            y: le64(d, 163) as u64,
            z: le64(d, 171) as u64,
        };
        let bounds_max = VectorBits {
            x: le64(d, 179) as u64,
            y: le64(d, 195) as u64,
            z: le64(d, 211) as u64,
        };
        let bounds_min = VectorBits {
            x: le64(d, 187) as u64,
            y: le64(d, 203) as u64,
            z: le64(d, 219) as u64,
        };
        let count = if minor == 4 {
            le64(d, 247) as u64
        } else {
            le32(d, 107) as u64
        };
        let pbr = if minor == 4 {
            ext_by_return(d)
        } else {
            legacy_by_return(d)
        };
        if header_size < spec_min_header_size(minor) {
            Err(LasError::InvalidHeader)
        } else if opd < header_size {
            Err(LasError::InvalidHeader)
        } else if id > 10 {
            Err(LasError::UnknownLayout { id })
        } else if rlen < spec_min_record_len(id) {
            Err(LasError::InvalidHeader)
        } else if f64_bits_is_zero(scale.x) || f64_bits_is_zero(scale.y) || f64_bits_is_zero(
            scale.z,
        ) {
            Err(LasError::InvalidHeader)
        } else if !(f64_bits_le(bounds_min.x, bounds_max.x) && f64_bits_le(
            bounds_min.y,
            bounds_max.y,
        ) && f64_bits_le(bounds_min.z, bounds_max.z)) {
            Err(LasError::InvalidHeader)
        } else if count != 0 && sum_of(pbr) != 0 && sum_of(pbr) != count {
            Err(LasError::InvalidHeader)
        } else {
            match spec_parse_vlrs(d, header_size, le32(d, 100)) {
                Err(e) => Err(e),
                Ok((vlrs, end)) => if end > opd {
                    Err(LasError::InvalidHeader)
                } else {
                    Ok(
                        HeaderModel {
                            version_major: 1,
                            version_minor: minor,
                            header_size: header_size as u16,
                            offset_to_point_data: opd as u32,
                            point_format: id,
                            is_compressed: fmt_byte & 0x80 != 0,
                            point_record_length: rlen as u16,
                            number_of_points: count,
                            points_by_return: pbr,
                            scale,
                            offset,
                            bounds_min,
                            bounds_max,
                            system_identifier: trim_pad(d.subrange(26, 58)),
                            generating_software: trim_pad(d.subrange(58, 90)),
                            creation_day: le16(d, 90) as u16,
                            creation_year: le16(d, 92) as u16,
                            vlrs,
                        },
                    )
                },
            }
        }
    }
}

/// Every invariant a header that parsed successfully satisfies.
pub open spec fn header_wf(h: HeaderModel) -> bool {
    &&& h.version_major == 1
    &&& h.version_minor <= 4
    &&& h.header_size >= spec_min_header_size(h.version_minor)
    &&& h.offset_to_point_data >= h.header_size
    &&& h.point_format <= 10
    &&& h.point_record_length >= spec_min_record_len(h.point_format)
    &&& !f64_bits_is_zero(h.scale.x)
    &&& !f64_bits_is_zero(h.scale.y)
    &&& !f64_bits_is_zero(h.scale.z)
    &&& f64_bits_le(h.bounds_min.x, h.bounds_max.x)
    &&& f64_bits_le(h.bounds_min.y, h.bounds_max.y)
    &&& f64_bits_le(h.bounds_min.z, h.bounds_max.z)
    &&& h.points_by_return.len() == (if h.version_minor == 4 {
        15int
    } else {
        5int
    })
    &&& (h.number_of_points != 0 && sum_of(h.points_by_return) != 0 ==> sum_of(
        h.points_by_return,
    ) == h.number_of_points)
}

/// Every header that parses successfully is well formed: in particular its
/// bounding box satisfies min <= max on each axis, and its total point
/// count equals the sum of its per-return counts whenever both are present
/// and nonzero.
pub proof fn lemma_parsed_header_well_formed(d: Seq<u8>)
    requires
        spec_parse_header(d) is Ok,
    ensures
        header_wf(spec_parse_header(d)->Ok_0),
{
}

/// Sums the per-return counts without overflowing: fifteen 64-bit counts
/// always fit a 128-bit accumulator.
fn sum_by_return(v: &Vec<u64>) -> (r: u128)
    requires
        v.len() <= 15,
    ensures
        r as int == sum_of(v@),
{
    let mut acc: u128 = 0;
    let mut i: usize = 0;
    while i < v.len()
        invariant
            i <= v.len(),
            v.len() <= 15,
            acc as int == sum_of(v@.take(i as int)),
            acc <= i * 0xFFFF_FFFF_FFFF_FFFF,
        decreases v.len() - i,
    {
        proof {
            let t = v@.take(i + 1);
            assert(t.drop_last() =~= v@.take(i as int));
            assert(t.last() == v@[i as int]);
        }
        acc = acc + v[i] as u128;
        i = i + 1;
    }
    proof {
        assert(v@.take(v@.len() as int) =~= v@);
    }
    acc
}

/// Reads the five legacy 32-bit per-return counts.
fn read_legacy_by_return(d: &Vec<u8>) -> (r: Vec<u64>)
    requires
        d.len() >= 227,
    ensures
        r@ == legacy_by_return(d@),
{
    let mut v: Vec<u64> = Vec::new();
    let mut i: usize = 0;
    while i < 5
        invariant
            i <= 5,
            d.len() >= 227,
            v@.len() == i,
            forall|j: int| 0 <= j < i ==> v@[j] == le32(d@, 111 + 4 * j) as u64,
        decreases 5 - i,
    {
        let c = get_u32(d, 111 + 4 * i);
        v.push(c as u64);
        i = i + 1;
    }
    proof {
        assert(v@ =~= legacy_by_return(d@));
    }
    v
}

/// Reads the fifteen extended 64-bit per-return counts of a 1.4 header.
fn read_ext_by_return(d: &Vec<u8>) -> (r: Vec<u64>)
    requires
        d.len() >= 375,
    ensures
        r@ == ext_by_return(d@),
{
    let mut v: Vec<u64> = Vec::new();
    let mut i: usize = 0;
    while i < 15
        invariant
            i <= 15,
            d.len() >= 375,
            v@.len() == i,
            forall|j: int| 0 <= j < i ==> v@[j] == le64(d@, 255 + 8 * j) as u64,
        decreases 15 - i,
    {
        let c = get_u64(d, 255 + 8 * i);
        v.push(c);
        i = i + 1;
    }
    proof {
        assert(v@ =~= ext_by_return(d@));
    }
    v
}

/// Reads three consecutive doubles as bit patterns, starting at `at`.
fn read_vector_bits(d: &Vec<u8>, at: usize) -> (r: VectorBits)
    requires
        at + 24 <= d.len(),
    ensures
        r == (VectorBits {
            x: le64(d@, at as int) as u64,
            y: le64(d@, at + 8) as u64,
            z: le64(d@, at + 16) as u64,
        }),
{
    proof {
        lemma_le64_bound(d@, at as int);
        lemma_le64_bound(d@, at + 8);
        lemma_le64_bound(d@, at + 16);
    }
    VectorBits { x: get_u64(d, at), y: get_u64(d, at + 8), z: get_u64(d, at + 16) }
}

/// Decodes the fixed file header and its variable-length records.
///
/// The result is exactly [`spec_parse_header`] of the bytes: on success the
/// returned header satisfies [`header_wf`], and on failure the error is the
/// first one a left-to-right scan discovers.
pub fn parse_header(d: &Vec<u8>) -> (r: Result<Header, LasError>)
    ensures
        r is Ok <==> spec_parse_header(d@) is Ok,
        r matches Ok(h) ==> spec_parse_header(d@) == Ok::<HeaderModel, LasError>(h@) && header_wf(
            h@,
        ),
        r matches Err(e) ==> spec_parse_header(d@) == Err::<HeaderModel, LasError>(e),
{
    if d.len() < 4 {
        return Err(LasError::TruncatedInput { offset: 0, needed: 4, available: d.len() });
    }
    if !(get_u8(d, 0) == 0x4C && get_u8(d, 1) == 0x41 && get_u8(d, 2) == 0x53 && get_u8(d, 3)
        == 0x46) {
        return Err(LasError::BadMagic);
    }
    if d.len() < 227 {
        return Err(LasError::TruncatedInput { offset: 0, needed: 227, available: d.len() });
    }
    let major = get_u8(d, 24);
    let minor = get_u8(d, 25);
    if !(major == 1 && minor <= 4) {
        return Err(LasError::UnsupportedVersion { major, minor });
    }
    if minor == 4 && d.len() < 375 {
        return Err(LasError::TruncatedInput { offset: 0, needed: 375, available: d.len() });
    }
    proof {
        lemma_le16_bound(d@, 94);
        lemma_le32_bound(d@, 96);
        lemma_le16_bound(d@, 105);
        lemma_le32_bound(d@, 100);
        lemma_le32_bound(d@, 107);
        lemma_le16_bound(d@, 90);
        lemma_le16_bound(d@, 92);
        if d[25] == 4 {
            lemma_le64_bound(d@, 247);
        }
    }
    let header_size = get_u16(d, 94);
    let opd = get_u32(d, 96);
    let fmt_byte = get_u8(d, 104);
    let id = fmt_byte & 0x7F;
    let rlen = get_u16(d, 105);
    let scale = read_vector_bits(d, 131);
    let offset = read_vector_bits(d, 155);
    let max_x = get_u64(d, 179);
    let min_x = get_u64(d, 187);
    let max_y = get_u64(d, 195);
    let min_y = get_u64(d, 203);
    let max_z = get_u64(d, 211);
    let min_z = get_u64(d, 219);
    let bounds_max = VectorBits { x: max_x, y: max_y, z: max_z };
    let bounds_min = VectorBits { x: min_x, y: min_y, z: min_z };
    let count: u64 = if minor == 4 {
        get_u64(d, 247)
    } else {
        get_u32(d, 107) as u64
    };
    let pbr: Vec<u64> = if minor == 4 {
        read_ext_by_return(d)
    } else {
        read_legacy_by_return(d)
    };
    let min_hs: u16 = if minor == 4 {
        375
    } else if minor == 3 {
        235
    } else {
        227
    };
    if header_size < min_hs {
        return Err(LasError::InvalidHeader);
    }
    if opd < header_size as u32 {
        return Err(LasError::InvalidHeader);
    }
    if id > 10 {
        return Err(LasError::UnknownLayout { id });
    }
    if rlen < min_record_len(id) {
        return Err(LasError::InvalidHeader);
    }
    if f64_bits_is_zero_exec(scale.x) || f64_bits_is_zero_exec(scale.y) || f64_bits_is_zero_exec(
        scale.z,
    ) {
        return Err(LasError::InvalidHeader);
    }
    if !(f64_bits_le_exec(bounds_min.x, bounds_max.x) && f64_bits_le_exec(bounds_min.y, bounds_max.y)
        && f64_bits_le_exec(bounds_min.z, bounds_max.z)) {
        return Err(LasError::InvalidHeader);
    }
    let sum = sum_by_return(&pbr);
    if count != 0 && sum != 0 && sum != count as u128 {
        return Err(LasError::InvalidHeader);
    }
    let n_vlrs = get_u32(d, 100);
    let vlrs = match parse_vlrs(d, header_size as usize, n_vlrs) {
        Ok(v) => v,
        Err(e) => { return Err(e); },
    };
    if vlrs.1 > opd as usize {
        return Err(LasError::InvalidHeader);
    }
    let h = Header {
        version_major: major,
        version_minor: minor,
        header_size,
        offset_to_point_data: opd,
        point_format: id,
        is_compressed: fmt_byte & 0x80 != 0,
        point_record_length: rlen,
        number_of_points: count,
        points_by_return: pbr,
        scale,
        offset,
        bounds_min,
        bounds_max,
        system_identifier: copy_trimmed(d, 26, 32),
        generating_software: copy_trimmed(d, 58, 32),
        creation_day: get_u16(d, 90),
        creation_year: get_u16(d, 92),
        vlrs: vlrs.0,
    };
    proof {
        assert(h@.points_by_return == if minor == 4 {
            ext_by_return(d@)
        } else {
            legacy_by_return(d@)
        });
        assert(spec_parse_header(d@) == Ok::<HeaderModel, LasError>(h@));
    }
    Ok(h)
}

/// Reads `n` variable-length records starting at `start`, returning them
/// together with the position just past the last one.
fn parse_vlrs(d: &Vec<u8>, start: usize, n: u32) -> (r: Result<(Vec<Vlr>, usize), LasError>)
    ensures
        r matches Ok(p) ==> spec_parse_vlrs(d@, start as int, n as int) == Ok::<
            (Seq<VlrModel>, int),
            LasError,
        >((p.0@.map_values(|v: Vlr| v@), p.1 as int)),
        r matches Err(e) ==> spec_parse_vlrs(d@, start as int, n as int) == Err::<
            (Seq<VlrModel>, int),
            LasError,
        >(e),
{
    let mut vlrs: Vec<Vlr> = Vec::new();
    let mut pos: usize = start;
    let mut i: u32 = 0;
    while i < n
        invariant
            i <= n,
            (spec_parse_vlrs(d@, pos as int, (n - i) as int) matches Ok(p) ==> spec_parse_vlrs(
                d@,
                start as int,
                n as int,
            ) == Ok::<(Seq<VlrModel>, int), LasError>(
                (vlrs@.map_values(|v: Vlr| v@) + p.0, p.1),
            )),
            (spec_parse_vlrs(d@, pos as int, (n - i) as int) matches Err(e) ==> spec_parse_vlrs(
                d@,
                start as int,
                n as int,
            ) == Err::<(Seq<VlrModel>, int), LasError>(e)),
        decreases n - i,
    {
        let ghost n_rem = (n - i) as int;
        if pos > d.len() || d.len() - pos < 54 {
            return Err(LasError::TruncatedInput {
                offset: pos,
                needed: 54,
                available: if pos <= d.len() {
                    d.len() - pos
                } else {
                    0
                },
            });
        }
        proof {
            lemma_le16_bound(d@, pos + 20);
        }
        let rl = get_u16(d, pos + 20);
        if d.len() - (pos + 54) < rl as usize {
            return Err(LasError::TruncatedInput {
                offset: pos + 54,
                needed: rl as usize,
                available: d.len() - (pos + 54),
            });
        }
        let vlr = Vlr {
            user_id: copy_trimmed(d, pos + 2, 16),
            record_id: get_u16(d, pos + 18),
            description: copy_trimmed(d, pos + 22, 32),
            data: copy_range(d, pos + 54, rl as usize),
        };
        proof {
            assert(vlr@ == vlr_at(d@, pos as int)) by {
                assert(d@.subrange(pos + 2, pos + 18) =~= d@.subrange(pos + 2, pos + 2 + 16));
                assert(d@.subrange(pos + 22, pos + 54) =~= d@.subrange(pos + 22, pos + 22 + 32));
                assert(d@.subrange(pos + 54, pos + 54 + rl) =~= d@.subrange(
                    pos + 54,
                    pos + 54 + le16(d@, pos + 20),
                ));
            }
        }
        let ghost old_vlrs = vlrs@;
        let ghost old_pos = pos as int;
        vlrs.push(vlr);
        pos = pos + 54 + rl as usize;
        i = i + 1;
        proof {
            let done_old = old_vlrs.map_values(|v: Vlr| v@);
            let done_new = vlrs@.map_values(|v: Vlr| v@);
            assert(done_new =~= done_old + seq![vlr_at(d@, old_pos)]);
            match spec_parse_vlrs(d@, pos as int, (n - i) as int) {
                Ok(p) => {
                    assert(spec_parse_vlrs(d@, old_pos, n_rem) == Ok::<
                        (Seq<VlrModel>, int),
                        LasError,
                    >((seq![vlr_at(d@, old_pos)] + p.0, p.1)));
                    assert(done_old + (seq![vlr_at(d@, old_pos)] + p.0) =~= done_new + p.0);
                },
                Err(e) => {
                    assert(spec_parse_vlrs(d@, old_pos, n_rem) == Err::<
                        (Seq<VlrModel>, int),
                        LasError,
                    >(e));
                },
            }
        }
    }
    Ok((vlrs, pos))
}

} // verus!
