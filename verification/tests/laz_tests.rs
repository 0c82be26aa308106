use simplaz::error::LasError;
use simplaz::point::decode_record;
use simplaz::reader::Dataset;

fn put_u16(d: &mut Vec<u8>, at: usize, v: u16) {
    d[at..at + 2].copy_from_slice(&v.to_le_bytes());
}

fn put_u32(d: &mut Vec<u8>, at: usize, v: u32) {
    d[at..at + 4].copy_from_slice(&v.to_le_bytes());
}

fn put_f64(d: &mut Vec<u8>, at: usize, v: f64) {
    d[at..at + 8].copy_from_slice(&v.to_le_bytes());
}

/// A format-0 record whose fields are derived from `seed`.
fn record0(seed: u32) -> Vec<u8> {
    let mut d = vec![0u8; 20];
    d[0..4].copy_from_slice(&((seed as i32) * 3 - 1000).to_le_bytes());
    d[4..8].copy_from_slice(&((seed as i32) % 777).to_le_bytes());
    d[8..12].copy_from_slice(&(-(seed as i32) / 2).to_le_bytes());
    d[12..14].copy_from_slice(&((seed * 13) as u16).to_le_bytes());
    d[14] = 0b0010_1010 | ((seed % 2) as u8);
    d[15] = (seed % 32) as u8;
    d[16] = (seed % 250) as u8;
    d[17] = 11;
    d[18..20].copy_from_slice(&((seed % 60000) as u16).to_le_bytes());
    d
}

/// Builds a complete LAZ file: a LAS 1.2 header with the compressed bit
/// set, the laszip VLR, and the point records compressed with the default
/// fixed chunk size of 50000 points.
fn laz_file(n_points: u32) -> Vec<u8> {
    let items = laz::LazItemRecordBuilder::default_for_point_format_id(0, 0).unwrap();
    let vlr = laz::LazVlr::from_laz_items(items);
    assert_eq!(vlr.chunk_size(), 50000);
    let mut vlr_payload = std::io::Cursor::new(Vec::new());
    vlr.write_to(&mut vlr_payload).unwrap();
    let vlr_payload = vlr_payload.into_inner();

    let mut d = vec![0u8; 227];
    d[0..4].copy_from_slice(b"LASF");
    d[24] = 1;
    d[25] = 2;
    put_u16(&mut d, 94, 227);
    put_u32(&mut d, 100, 1); // one VLR
    d[104] = 0x80; // layout 0, compressed
    put_u16(&mut d, 105, 20);
    put_u32(&mut d, 107, n_points);
    put_u32(&mut d, 111, n_points);
    for at in [131, 139, 147] {
        put_f64(&mut d, at, 0.01);
    }
    for at in [179, 195, 211] {
        put_f64(&mut d, at, 1000000.0);
    }
    for at in [187, 203, 219] {
        put_f64(&mut d, at, -1000000.0);
    }
    // The laszip VLR.
    let mut desc = vec![0u8; 54];
    desc[2..16].copy_from_slice(b"laszip encoded");
    put_u16(&mut desc, 18, 22204);
    put_u16(&mut desc, 20, vlr_payload.len() as u16);
    d.extend(&desc);
    d.extend(&vlr_payload);
    let opd = d.len() as u32;
    put_u32(&mut d, 96, opd);

    let mut raw = Vec::with_capacity(n_points as usize * 20);
    for s in 0..n_points {
        raw.extend(record0(s));
    }
    let mut dst = std::io::Cursor::new(d);
    dst.set_position(opd as u64);
    {
        let mut comp = laz::LasZipCompressor::new(&mut dst, vlr).unwrap();
        comp.compress_many(&raw).unwrap();
        comp.done().unwrap();
    }
    dst.into_inner()
}

#[test]
fn laz_points_match_the_uncompressed_reference() {
    let n = 300u32;
    let mut ds = Dataset::open(laz_file(n)).unwrap();
    assert!(ds.header().is_compressed);
    assert_eq!(ds.header().number_of_points, n as u64);
    for s in 0..n {
        let p = ds.next().unwrap().unwrap();
        let reference = decode_record(0, &record0(s)).unwrap();
        assert_eq!(p, reference);
    }
    assert_eq!(ds.next().unwrap(), None);
    assert_eq!(ds.next().unwrap(), None);
}

#[test]
fn point_after_chunk_boundary_decodes_with_fresh_context() {
    // 50001 points: the last one is the first point of the second chunk
    // and must decode against a freshly reset predictive context.
    let n = 50001u32;
    let mut ds = Dataset::open(laz_file(n)).unwrap();
    let mut last = None;
    let mut count = 0u32;
    while let Some(p) = ds.next().unwrap() {
        if count == 50000 {
            last = Some(p);
        } else if count % 9999 == 0 {
            let reference = decode_record(0, &record0(count)).unwrap();
            assert_eq!(p, reference);
        }
        count += 1;
    }
    assert_eq!(count, n);
    let reference = decode_record(0, &record0(50000)).unwrap();
    assert_eq!(last.unwrap(), reference);
}

#[test]
fn laz_read_all_and_reset_agree() {
    let n = 120u32;
    let mut ds = Dataset::open(laz_file(n)).unwrap();
    let first = ds.read_all().unwrap();
    assert_eq!(first.len(), n as usize);
    // Exhausted: a second bulk read is an empty Ok, and single reads agree.
    assert_eq!(ds.read_all().unwrap().len(), 0);
    assert_eq!(ds.next().unwrap(), None);
    ds.reset();
    let second = ds.read_all().unwrap();
    assert_eq!(first, second);
}

#[test]
fn truncated_laz_file_fails_never_lies() {
    let full = laz_file(400);
    let opd = {
        let ds = Dataset::open(full.clone()).unwrap();
        ds.header().offset_to_point_data as usize
    };
    // The chunk table sits at the end; its position is the i64 stored at
    // the start of the point data. Cut anywhere up to there: some point
    // or the chunk table itself is then missing.
    let table_off = i64::from_le_bytes(full[opd..opd + 8].try_into().unwrap()) as usize;
    assert!(opd < table_off && table_off < full.len());
    for cut in (opd..table_off + 1).step_by(31) {
        let mut ds = match Dataset::open(full[..cut].to_vec()) {
            Ok(ds) => ds,
            Err(e) => {
                assert!(matches!(
                    e,
                    LasError::TruncatedInput { .. } | LasError::CorruptChunk { .. }
                ));
                continue;
            }
        };
        let err = loop {
            match ds.next() {
                Ok(Some(p)) => {
                    assert_eq!(p.user_data, 11);
                }
                Ok(None) => panic!("stream ended cleanly despite truncation"),
                Err(e) => break e,
            }
        };
        assert!(matches!(
            err,
            LasError::TruncatedInput { .. } | LasError::CorruptChunk { .. }
        ));
    }
}

/// A format-7 record (36 bytes) derived from `seed`.
fn record7(seed: u32) -> Vec<u8> {
    let mut d = vec![0u8; 36];
    d[0..4].copy_from_slice(&((seed as i32) * 5 - 3).to_le_bytes());
    d[4..8].copy_from_slice(&((seed as i32) % 1234).to_le_bytes());
    d[8..12].copy_from_slice(&(100 - seed as i32).to_le_bytes());
    d[12..14].copy_from_slice(&((seed * 7) as u16).to_le_bytes());
    d[14] = 0x21; // return 1 of 2
    d[15] = 0b0101_0001; // synthetic, channel 1, scan direction
    d[16] = (seed % 256) as u8;
    d[17] = 4;
    d[18..20].copy_from_slice(&((seed % 5000) as i16).to_le_bytes());
    d[20..22].copy_from_slice(&77u16.to_le_bytes());
    d[22..30].copy_from_slice(&(seed as f64 * 0.5).to_le_bytes());
    d[30..32].copy_from_slice(&((seed % 300) as u16).to_le_bytes());
    d[32..34].copy_from_slice(&((seed % 400) as u16).to_le_bytes());
    d[34..36].copy_from_slice(&((seed % 500) as u16).to_le_bytes());
    d
}

/// Builds a LAZ file of layout 7 under a LAS 1.4 header: its records
/// compress through the layered coder rather than the point-wise one.
fn laz14_file(n_points: u32) -> Vec<u8> {
    let items = laz::LazItemRecordBuilder::default_for_point_format_id(7, 0).unwrap();
    let vlr = laz::LazVlr::from_laz_items(items);
    let mut vlr_payload = std::io::Cursor::new(Vec::new());
    vlr.write_to(&mut vlr_payload).unwrap();
    let vlr_payload = vlr_payload.into_inner();

    let mut d = vec![0u8; 375];
    d[0..4].copy_from_slice(b"LASF");
    d[24] = 1;
    d[25] = 4;
    put_u16(&mut d, 94, 375);
    put_u32(&mut d, 100, 1);
    d[104] = 7 | 0x80;
    put_u16(&mut d, 105, 36);
    for at in [131, 139, 147] {
        put_f64(&mut d, at, 0.001);
    }
    for at in [179, 195, 211] {
        put_f64(&mut d, at, 4000.0);
    }
    for at in [187, 203, 219] {
        put_f64(&mut d, at, -4000.0);
    }
    d[247..255].copy_from_slice(&(n_points as u64).to_le_bytes());
    d[255..263].copy_from_slice(&(n_points as u64).to_le_bytes());
    let mut desc = vec![0u8; 54];
    desc[2..16].copy_from_slice(b"laszip encoded");
    put_u16(&mut desc, 18, 22204);
    put_u16(&mut desc, 20, vlr_payload.len() as u16);
    d.extend(&desc);
    d.extend(&vlr_payload);
    let opd = d.len() as u32;
    put_u32(&mut d, 96, opd);

    let mut raw = Vec::with_capacity(n_points as usize * 36);
    for s in 0..n_points {
        raw.extend(record7(s));
    }
    let mut dst = std::io::Cursor::new(d);
    dst.set_position(opd as u64);
    {
        let mut comp = laz::LasZipCompressor::new(&mut dst, vlr).unwrap();
        comp.compress_many(&raw).unwrap();
        comp.done().unwrap();
    }
    dst.into_inner()
}

#[test]
fn layered_laz_of_layout7_matches_the_reference() {
    let n = 250u32;
    let mut ds = Dataset::open(laz14_file(n)).unwrap();
    assert_eq!(ds.header().version_minor, 4);
    assert_eq!(ds.header().point_format, 7);
    let pts = ds.read_all().unwrap();
    assert_eq!(pts.len(), n as usize);
    for s in 0..n {
        let reference = decode_record(7, &record7(s)).unwrap();
        assert_eq!(pts[s as usize], reference);
    }
}

#[test]
fn compressed_file_without_laszip_vlr_is_invalid() {
    let mut full = laz_file(10);
    // Break the VLR's record id so the laszip VLR cannot be found.
    put_u16(&mut full, 227 + 18, 9999);
    assert_eq!(Dataset::open(full).err().unwrap(), LasError::InvalidHeader);
}

#[test]
fn missing_chunk_table_is_a_corrupt_chunk() {
    let full = laz_file(50);
    let opd = {
        let ds = Dataset::open(full.clone()).unwrap();
        ds.header().offset_to_point_data as usize
    };
    // Keep the chunk-table offset but cut the table itself away.
    let mut ds = Dataset::open(full[..opd + 8].to_vec()).unwrap();
    assert_eq!(
        ds.next(),
        Err(LasError::CorruptChunk { chunk_index: 0, expected: 0, actual: 0 })
    );
}

#[test]
fn variable_size_chunks_are_not_supported() {
    let mut full = laz_file(10);
    // The chunk size is the u32 at byte 12 of the laszip VLR payload;
    // zero marks variable-size chunks.
    put_u32(&mut full, 227 + 54 + 12, 0);
    assert_eq!(Dataset::open(full).err().unwrap(), LasError::NotSupported);
}

#[test]
fn zero_size_coder_items_are_rejected() {
    let mut full = laz_file(10);
    // One coder item whose size field claims zero bytes: the payload then
    // describes no record at all.
    put_u16(&mut full, 227 + 54 + 32, 1); // item count
    put_u16(&mut full, 227 + 54 + 36, 0); // item size
    assert_eq!(Dataset::open(full).err().unwrap(), LasError::InvalidHeader);
}

#[test]
fn coder_items_must_match_the_record_length() {
    let mut full = laz_file(10);
    // The single item of a layout-0 file describes 20 bytes; claim 19.
    put_u16(&mut full, 227 + 54 + 36, 19);
    assert_eq!(Dataset::open(full).err().unwrap(), LasError::InvalidHeader);
}

#[test]
fn truncated_coder_item_list_is_rejected() {
    let mut full = laz_file(10);
    // Claim far more items than the payload holds.
    put_u16(&mut full, 227 + 54 + 32, 100);
    let e = Dataset::open(full).err().unwrap();
    assert!(matches!(e, LasError::TruncatedInput { .. }));
}

#[test]
fn unsupported_compressor_kind_is_reported() {
    let mut full = laz_file(10);
    // The compressor field is the first u16 of the laszip VLR payload.
    put_u16(&mut full, 227 + 54, 1);
    assert_eq!(Dataset::open(full).err().unwrap(), LasError::NotSupported);
}
