use simplaz::error::LasError;
use simplaz::reader::Dataset;

fn put_u16(d: &mut Vec<u8>, at: usize, v: u16) {
    d[at..at + 2].copy_from_slice(&v.to_le_bytes());
}

fn put_u32(d: &mut Vec<u8>, at: usize, v: u32) {
    d[at..at + 4].copy_from_slice(&v.to_le_bytes());
}

fn put_f64(d: &mut Vec<u8>, at: usize, v: f64) {
    d[at..at + 8].copy_from_slice(&v.to_le_bytes());
}

/// A minimal valid LAS 1.2 header for layout 0 and the given point count.
fn las12_header(n_points: u32) -> Vec<u8> {
    let mut d = vec![0u8; 227];
    d[0..4].copy_from_slice(b"LASF");
    d[24] = 1;
    d[25] = 2;
    put_u16(&mut d, 90, 200);
    put_u16(&mut d, 92, 2021);
    put_u16(&mut d, 94, 227);
    put_u32(&mut d, 96, 227);
    d[104] = 0;
    put_u16(&mut d, 105, 20);
    put_u32(&mut d, 107, n_points);
    put_u32(&mut d, 111, n_points);
    for at in [131, 139, 147] {
        put_f64(&mut d, at, 0.001);
    }
    for at in [179, 195, 211] {
        put_f64(&mut d, at, 1000.0);
    }
    for at in [187, 203, 219] {
        put_f64(&mut d, at, -1000.0);
    }
    d
}

/// A format-0 record whose fields are derived from `seed`.
fn record0(seed: u32) -> Vec<u8> {
    let mut d = vec![0u8; 20];
    d[0..4].copy_from_slice(&(seed as i32).to_le_bytes());
    d[4..8].copy_from_slice(&(-(seed as i32)).to_le_bytes());
    d[8..12].copy_from_slice(&(seed as i32 * 2).to_le_bytes());
    d[12..14].copy_from_slice(&(seed as u16).to_le_bytes());
    d[14] = 0b0001_0001;
    d[15] = (seed % 32) as u8;
    d[16] = 3;
    d[17] = 7;
    d[18..20].copy_from_slice(&1u16.to_le_bytes());
    d
}

fn las12_file(n_points: u32) -> Vec<u8> {
    let mut d = las12_header(n_points);
    for s in 0..n_points {
        d.extend(record0(s));
    }
    d
}

#[test]
fn zero_point_file_ends_on_first_read() {
    let mut ds = Dataset::open(las12_file(0)).unwrap();
    assert_eq!(ds.next().unwrap(), None);
}

#[test]
fn next_after_end_keeps_returning_end() {
    let mut ds = Dataset::open(las12_file(2)).unwrap();
    assert!(ds.next().unwrap().is_some());
    assert!(ds.next().unwrap().is_some());
    assert_eq!(ds.next().unwrap(), None);
    assert_eq!(ds.next().unwrap(), None);
    assert_eq!(ds.next().unwrap(), None);
}

#[test]
fn header_is_cached_and_identical_across_calls() {
    let ds = Dataset::open(las12_file(3)).unwrap();
    let first = ds.header();
    let second = ds.header();
    assert_eq!(first, second);
    assert_eq!(first.number_of_points, 3);
}

#[test]
fn streams_points_in_order() {
    let mut ds = Dataset::open(las12_file(5)).unwrap();
    for s in 0..5u32 {
        let p = ds.next().unwrap().unwrap();
        assert_eq!(p.x_raw, s as i32);
        assert_eq!(p.y_raw, -(s as i32));
        assert_eq!(p.z_raw, s as i32 * 2);
        assert_eq!(p.intensity, s as u16);
        assert_eq!(p.classification, (s % 32) as u8);
    }
    assert_eq!(ds.next().unwrap(), None);
}

#[test]
fn read_all_drains_the_stream() {
    let mut ds = Dataset::open(las12_file(10)).unwrap();
    let pts = ds.read_all().unwrap();
    assert_eq!(pts.len(), 10);
    assert_eq!(pts[7].x_raw, 7);
    assert_eq!(ds.next().unwrap(), None);
    let again = ds.read_all().unwrap();
    assert_eq!(again.len(), 0);
}

#[test]
fn reset_returns_to_the_first_point() {
    let mut ds = Dataset::open(las12_file(4)).unwrap();
    let first_pass = ds.read_all().unwrap();
    ds.reset();
    let second_pass = ds.read_all().unwrap();
    assert_eq!(first_pass, second_pass);
    assert_eq!(second_pass.len(), 4);
}

#[test]
fn counts_points_of_one_classification() {
    let mut ds = Dataset::open(las12_file(70)).unwrap();
    let mut ground = 0;
    while let Some(p) = ds.next().unwrap() {
        if p.classification == 2 {
            ground += 1;
        }
    }
    // Seeds 2, 34 and 66 decode to classification 2.
    assert_eq!(ground, 3);
}

#[test]
fn truncated_point_data_fails_with_truncation() {
    let full = las12_file(6);
    let ds_end = full.len();
    // Cut anywhere before the declared end of the point data: the stream
    // must fail, never hand back a wrong point.
    for cut in (227..ds_end).step_by(7) {
        let mut ds = match Dataset::open(full[..cut].to_vec()) {
            Ok(ds) => ds,
            Err(e) => {
                assert!(matches!(e, LasError::TruncatedInput { .. }));
                continue;
            }
        };
        let mut got = 0u32;
        let err = loop {
            match ds.next() {
                Ok(Some(p)) => {
                    // Every point handed out before the cut is correct.
                    assert_eq!(p.x_raw, got as i32);
                    got += 1;
                }
                Ok(None) => panic!("stream ended cleanly despite truncation"),
                Err(e) => break e,
            }
        };
        assert!(matches!(err, LasError::TruncatedInput { .. }));
        assert_eq!(got as usize, (cut - 227) / 20);
    }
}

#[test]
fn error_reports_offset_and_sizes() {
    let full = las12_file(2);
    let mut ds = Dataset::open(full[..227 + 25].to_vec()).unwrap();
    assert!(ds.next().unwrap().is_some());
    assert_eq!(
        ds.next(),
        Err(LasError::TruncatedInput { offset: 247, needed: 20, available: 5 })
    );
}
