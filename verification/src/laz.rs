use vstd::prelude::*;

use laz::record::RecordDecompressor;

use crate::bytes::{get_u16, get_u32, le16, le32, lemma_le16_bound, lemma_le32_bound};
use crate::error::LasError;
use crate::header::{Vlr, VlrModel};

verus! {

/// The compression parameters the chunked decompressor needs, read from
/// the laszip VLR payload.
#[derive(Debug, Clone, Copy, PartialEq, Eq, Structural)]
pub struct LazInfo {
    /// 2 for point-wise chunked streams, 3 for layered chunked streams.
    pub compressor: u16,
    /// Number of point records each chunk expands to.
    pub chunk_size: u32,
    /// Size of one decompressed record, as the coder items describe it;
    /// a conforming file's point-record length equals it.
    pub record_size: u64,
}

/// The user id that marks the laszip VLR: the ASCII bytes of
/// "laszip encoded", padding removed.
pub open spec fn laszip_user_id() -> Seq<u8> {
    seq![0x6Cu8, 0x61, 0x73, 0x7A, 0x69, 0x70, 0x20, 0x65, 0x6E, 0x63, 0x6F, 0x64, 0x65, 0x64]
}

/// The record id that marks the laszip VLR.
pub open spec fn laszip_record_id() -> u16 {
    22204
}

/// Whether a VLR is the laszip compression-parameter record.
pub open spec fn is_laszip_vlr(v: VlrModel) -> bool {
    v.record_id == laszip_record_id() && v.user_id == laszip_user_id()
}

/// The index of the first laszip VLR at or after `i`, or -1 if none.
pub open spec fn find_laszip(vlrs: Seq<VlrModel>, i: int) -> int
    decreases vlrs.len() - i,
{
    if i < 0 || i >= vlrs.len() {
        -1
    } else if is_laszip_vlr(vlrs[i]) {
        i
    } else {
        find_laszip(vlrs, i + 1)
    }
}

/// When the search finds an index, that index holds a laszip VLR.
pub proof fn lemma_find_laszip_found(vlrs: Seq<VlrModel>, i: int)
    requires
        0 <= i,
        find_laszip(vlrs, i) >= 0,
    ensures
        i <= find_laszip(vlrs, i) < vlrs.len(),
        is_laszip_vlr(vlrs[find_laszip(vlrs, i)]),
    decreases vlrs.len() - i,
{
    if i < vlrs.len() && !is_laszip_vlr(vlrs[i]) {
        lemma_find_laszip_found(vlrs, i + 1);
    }
}

/// The byte of [`laszip_user_id`] at index `i`.
fn laszip_user_id_byte(i: usize) -> (r: u8)
    requires
        i < 14,
    ensures
        r == laszip_user_id()[i as int],
{
    if i == 0 {
        0x6C
    } else if i == 1 {
        0x61
    } else if i == 2 {
        0x73
    } else if i == 3 {
        0x7A
    } else if i == 4 {
        0x69
    } else if i == 5 {
        0x70
    } else if i == 6 {
        0x20
    } else if i == 7 {
        0x65
    } else if i == 8 {
        0x6E
    } else if i == 9 {
        0x63
    } else if i == 10 {
        0x6F
    } else if i == 11 {
        0x64
    } else if i == 12 {
        0x65
    } else {
        0x64
    }
}

/// Whether this VLR is the laszip compression-parameter record.
pub fn vlr_is_laszip(v: &Vlr) -> (r: bool)
    ensures
        r == is_laszip_vlr(v@),
{
    if v.record_id != 22204 {
        return false;
    }
    if v.user_id.len() != 14 {
        return false;
    }
    let mut i: usize = 0;
    while i < 14
        invariant
            i <= 14,
            v.user_id.len() == 14,
            forall|j: int| 0 <= j < i ==> v.user_id@[j] == laszip_user_id()[j],
        decreases 14 - i,
    {
        if v.user_id[i] != laszip_user_id_byte(i) {
            return false;
        }
        i = i + 1;
    }
    proof {
        assert(v.user_id@ =~= laszip_user_id());
    }
    true
}

/// Finds the first laszip VLR in the list, if any.
pub fn find_laszip_vlr(vlrs: &Vec<Vlr>) -> (r: Option<usize>)
    ensures
        r matches Some(i) ==> i < vlrs.len() && find_laszip(vlrs@.map_values(|v: Vlr| v@), 0)
            == i,
        r is None ==> find_laszip(vlrs@.map_values(|v: Vlr| v@), 0) == -1,
{
    let ghost m = vlrs@.map_values(|v: Vlr| v@);
    let mut i: usize = 0;
    while i < vlrs.len()
        invariant
            i <= vlrs.len(),
            m == vlrs@.map_values(|v: Vlr| v@),
            find_laszip(m, 0) == find_laszip(m, i as int),
        decreases vlrs.len() - i,
    {
        if vlr_is_laszip(&vlrs[i]) {
            return Some(i);
        }
        i = i + 1;
    }
    None
}

/// The sum of the sizes of the first `n` coder items of the laszip VLR
/// payload: each item is six bytes from byte 34 on, its size the
/// little-endian u16 at its second byte.
pub open spec fn laz_items_total(p: Seq<u8>, n: int) -> int
    decreases n,
{
    if n <= 0 {
        0
    } else {
        laz_items_total(p, n - 1) + le16(p, 34 + 6 * (n - 1) + 2)
    }
}

/// What `parse_laz_info` computes from the laszip VLR payload: the
/// compressor kind at byte 0, the chunk size at byte 12, and the record
/// size the coder items describe (their sizes summed), all little-endian.
/// Only chunked streams of a fixed chunk size are supported, and the item
/// list must be whole and describe a record of at least one byte.
pub open spec fn spec_parse_laz_info(p: Seq<u8>) -> Result<LazInfo, LasError> {
    if p.len() < 34 {
        Err(
            LasError::TruncatedInput {
                offset: 0,
                needed: 34,
                available: p.len() as usize,
            },
        )
    } else {
        let comp = le16(p, 0);
        let cs = le32(p, 12);
        let n_items = le16(p, 32);
        if !(comp == 2 || comp == 3) {
            Err(LasError::NotSupported)
        } else if cs == 0 || cs == 0xFFFF_FFFF {
            Err(LasError::NotSupported)
        } else if p.len() < 34 + 6 * n_items {
            Err(
                LasError::TruncatedInput {
                    offset: 34,
                    needed: (6 * n_items) as usize,
                    available: (p.len() - 34) as usize,
                },
            )
        } else if laz_items_total(p, n_items) == 0 {
            Err(LasError::InvalidHeader)
        } else {
            Ok(
                LazInfo {
                    compressor: comp as u16,
                    chunk_size: cs as u32,
                    record_size: laz_items_total(p, n_items) as u64,
                },
            )
        }
    }
}

/// Reads the compression parameters from the laszip VLR payload.
pub fn parse_laz_info(p: &Vec<u8>) -> (r: Result<LazInfo, LasError>)
    ensures
        r == spec_parse_laz_info(p@),
{
    if p.len() < 34 {
        return Err(LasError::TruncatedInput { offset: 0, needed: 34, available: p.len() });
    }
    proof {
        lemma_le16_bound(p@, 0);
        lemma_le32_bound(p@, 12);
        lemma_le16_bound(p@, 32);
    }
    let comp = get_u16(p, 0);
    let cs = get_u32(p, 12);
    let n_items = get_u16(p, 32);
    if !(comp == 2 || comp == 3) {
        return Err(LasError::NotSupported);
    }
    if cs == 0 || cs == 0xFFFF_FFFF {
        return Err(LasError::NotSupported);
    }
    if p.len() < 34 + 6 * n_items as usize {
        return Err(LasError::TruncatedInput {
            offset: 34,
            needed: 6 * n_items as usize,
            available: p.len() - 34,
        });
    }
    let mut total: u64 = 0;
    let mut i: usize = 0;
    while i < n_items as usize
        invariant
            i <= n_items as usize,
            34 + 6 * (n_items as int) <= p.len(),
            total == laz_items_total(p@, i as int),
            total <= i * 0xFFFF,
        decreases n_items as usize - i,
    {
        proof {
            lemma_le16_bound(p@, 34 + 6 * (i as int) + 2);
        }
        let size = get_u16(p, 34 + 6 * i + 2);
        total = total + size as u64;
        i = i + 1;
    }
    if total == 0 {
        return Err(LasError::InvalidHeader);
    }
    Ok(LazInfo { compressor: comp, chunk_size: cs, record_size: total })
}

/// The per-chunk point and byte counts stored in the file's chunk table,
/// or nothing when the table does not decode. The table is a deterministic
/// function of the file bytes, the offset to the point data and the VLR
/// payload, which fix its position and coding.
pub uninterp spec fn laz_chunk_table(file: Seq<u8>, point_data_offset: u64, vlr: Seq<u8>) -> Option<
    Seq<(u64, u64)>,
>;

/// The records a compressed chunk expands to, flattened, or nothing when
/// the chunk does not decode: decompressing `n_points` records of
/// `point_len` bytes each from `chunk` under the coder configuration
/// carried by `vlr`.
pub uninterp spec fn laz_chunk_records(
    vlr: Seq<u8>,
    chunk: Seq<u8>,
    n_points: nat,
    point_len: nat,
) -> Option<Seq<u8>>;

/// Relies on `laz::LazVlr::from_buffer` and `laz::laszip::ChunkTable::read_from`:
/// the chunk table sits at the absolute offset stored in the first eight
/// bytes of the point data (with a fallback that reads the offset from the
/// file's last eight bytes when that field was never updated) and decodes
/// deterministically from the file bytes and the VLR payload; each entry
/// gives one chunk's point count and compressed byte count, in chunk order,
/// and every decoding failure returns nothing.
#[verifier::external_body]
pub(crate) fn read_chunk_table(file: &Vec<u8>, point_data_offset: u64, vlr: &Vec<u8>) -> (r:
    Option<Vec<(u64, u64)>>)
    ensures
        r is Some <==> laz_chunk_table(file@, point_data_offset, vlr@) is Some,
        r matches Some(t) ==> Some(t@) == laz_chunk_table(file@, point_data_offset, vlr@),
{
    let laz_vlr = laz::LazVlr::from_buffer(vlr.as_slice()).ok()?;
    let mut src = std::io::Cursor::new(file.as_slice());
    src.set_position(point_data_offset);
    let table = laz::laszip::ChunkTable::read_from(&mut src, &laz_vlr).ok()?;
    Some((&table).into_iter().map(|e| (e.point_count, e.byte_count)).collect())
}

/// Relies on `laz::LazVlr::from_buffer`,
/// `laz::record::SequentialPointRecordDecompressor` and
/// `laz::record::LayeredPointRecordDecompressor`: one chunk decompresses
/// independently of every other (its entropy-coding contexts reset at the
/// chunk boundary), so the outcome is a function of the VLR payload and
/// the chunk bytes alone; on success the output fills exactly
/// `n_points * point_len` bytes, and every failure returns nothing. The
/// payload must describe records of at least one byte, or the
/// decompressors' record-sized chunking would panic.
#[verifier::external_body]
pub(crate) fn decompress_chunk(vlr: &Vec<u8>, chunk: &Vec<u8>, n_points: usize, point_len: usize)
    -> (r: Option<Vec<u8>>)
    requires
        n_points * point_len <= usize::MAX,
        spec_parse_laz_info(vlr@) matches Ok(info) && info.record_size > 0,
    ensures
        r is Some <==> laz_chunk_records(vlr@, chunk@, n_points as nat, point_len as nat) is Some,
        r matches Some(out) ==> Some(out@) == laz_chunk_records(
            vlr@,
            chunk@,
            n_points as nat,
            point_len as nat,
        ) && out@.len() == n_points * point_len,
{
    let laz_vlr = laz::LazVlr::from_buffer(vlr.as_slice()).ok()?;
    let src = std::io::Cursor::new(chunk.as_slice());
    let mut out = vec![0u8; n_points * point_len];
    let version = laz_vlr.items().first()?.version();
    if version == 1 || version == 2 {
        let mut dec = laz::record::SequentialPointRecordDecompressor::new(src);
        dec.set_fields_from(laz_vlr.items()).ok()?;
        dec.decompress_many(&mut out).ok()?;
    } else {
        let mut dec = laz::record::LayeredPointRecordDecompressor::new(src);
        dec.set_fields_from(laz_vlr.items()).ok()?;
        dec.decompress_many(&mut out).ok()?;
    }
    Some(out)
}

} // verus!
