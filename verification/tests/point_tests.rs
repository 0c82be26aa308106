use simplaz::error::LasError;
use simplaz::point::{decode_record, Color};

/// A format-0 record (20 bytes) with every field set distinctly.
fn record0() -> Vec<u8> {
    let mut d = vec![0u8; 20];
    d[0..4].copy_from_slice(&1000000i32.to_le_bytes());
    d[4..8].copy_from_slice(&(-250000i32).to_le_bytes());
    d[8..12].copy_from_slice(&42i32.to_le_bytes());
    d[12..14].copy_from_slice(&777u16.to_le_bytes());
    d[14] = 0b0101_1001; // return 1, number of returns 3, direction set
    d[15] = 0b1010_0010; // classification 2, synthetic, withheld
    d[16] = 0xFA; // scan angle -6 degrees
    d[17] = 99; // user data
    d[18..20].copy_from_slice(&4242u16.to_le_bytes());
    d
}

#[test]
fn packed_byte_of_format0_unpacks() {
    let p = decode_record(0, &record0()).unwrap();
    assert_eq!(p.return_number, 1);
    assert_eq!(p.number_of_returns, 3);
    assert!(p.scan_direction_flag);
    assert!(!p.edge_of_flight_line);
}

#[test]
fn format0_decodes_every_field() {
    let p = decode_record(0, &record0()).unwrap();
    assert_eq!(p.x_raw, 1000000);
    assert_eq!(p.y_raw, -250000);
    assert_eq!(p.z_raw, 42);
    assert_eq!(p.intensity, 777);
    assert_eq!(p.classification, 2);
    assert!(p.is_synthetic);
    assert!(!p.is_key_point);
    assert!(p.is_withheld);
    assert!(!p.is_overlap);
    assert_eq!(p.scanner_channel, 0);
    assert_eq!(p.scan_angle_raw, -6);
    assert_eq!(p.user_data, 99);
    assert_eq!(p.point_source_id, 4242);
    assert_eq!(p.gps_time_bits, None);
    assert_eq!(p.color, None);
    assert_eq!(p.nir, None);
    assert_eq!(p.wave_packet, None);
}

#[test]
fn raw_coordinate_scales_to_real_position() {
    // A raw integer of 1000000 under scale 0.01 and offset 100.0 is
    // exactly 10100.0 in double precision.
    let p = decode_record(0, &record0()).unwrap();
    assert_eq!(p.x_raw, 1000000);
    let real = p.x_raw as f64 * 0.01 + 100.0;
    assert_eq!(real, 10100.0);
}

#[test]
fn format1_carries_gps_time() {
    let mut d = record0();
    d.extend(&123.5f64.to_le_bytes());
    let p = decode_record(1, &d).unwrap();
    assert_eq!(p.gps_time_bits.map(f64::from_bits), Some(123.5));
    assert_eq!(p.color, None);
}

#[test]
fn format2_carries_color() {
    let mut d = record0();
    d.extend(&10u16.to_le_bytes());
    d.extend(&20u16.to_le_bytes());
    d.extend(&30u16.to_le_bytes());
    let p = decode_record(2, &d).unwrap();
    assert_eq!(p.color, Some(Color { red: 10, green: 20, blue: 30 }));
    assert_eq!(p.gps_time_bits, None);
}

#[test]
fn format3_carries_gps_time_and_color() {
    let mut d = record0();
    d.extend(&(-1.25f64).to_le_bytes());
    d.extend(&1u16.to_le_bytes());
    d.extend(&2u16.to_le_bytes());
    d.extend(&3u16.to_le_bytes());
    let p = decode_record(3, &d).unwrap();
    assert_eq!(p.gps_time_bits.map(f64::from_bits), Some(-1.25));
    assert_eq!(p.color, Some(Color { red: 1, green: 2, blue: 3 }));
}

#[test]
fn format4_carries_wave_packet() {
    let mut d = record0();
    d.extend(&0.0f64.to_le_bytes()); // gps time
    d.push(3); // descriptor index
    d.extend(&900u64.to_le_bytes()); // byte offset
    d.extend(&64u32.to_le_bytes()); // size
    d.extend(&1.5f32.to_le_bytes()); // return point location
    d.extend(&0.25f32.to_le_bytes()); // x(t)
    d.extend(&(-0.5f32).to_le_bytes()); // y(t)
    d.extend(&2.0f32.to_le_bytes()); // z(t)
    assert_eq!(d.len(), 57);
    let p = decode_record(4, &d).unwrap();
    let w = p.wave_packet.unwrap();
    assert_eq!(w.descriptor_index, 3);
    assert_eq!(w.byte_offset, 900);
    assert_eq!(w.size_in_bytes, 64);
    assert_eq!(f32::from_bits(w.return_point_location_bits), 1.5);
    assert_eq!(f32::from_bits(w.x_t_bits), 0.25);
    assert_eq!(f32::from_bits(w.y_t_bits), -0.5);
    assert_eq!(f32::from_bits(w.z_t_bits), 2.0);
}

/// A format-6 record (30 bytes) exercising the extended packing.
fn record6() -> Vec<u8> {
    let mut d = vec![0u8; 30];
    d[0..4].copy_from_slice(&(-7i32).to_le_bytes());
    d[4..8].copy_from_slice(&8i32.to_le_bytes());
    d[8..12].copy_from_slice(&9i32.to_le_bytes());
    d[12..14].copy_from_slice(&60000u16.to_le_bytes());
    d[14] = 0b1111_1001; // return 9, number of returns 15
    d[15] = 0b1010_1101; // synthetic, withheld, overlap; channel 2; edge
    d[16] = 200; // extended classification uses the whole byte
    d[17] = 5; // user data
    d[18..20].copy_from_slice(&(-5000i16).to_le_bytes()); // scan angle, 0.006 degree units
    d[20..22].copy_from_slice(&31000u16.to_le_bytes()); // point source id
    d[22..30].copy_from_slice(&99.5f64.to_le_bytes()); // gps time
    d
}

#[test]
fn format6_decodes_extended_fields() {
    let p = decode_record(6, &record6()).unwrap();
    assert_eq!(p.x_raw, -7);
    assert_eq!(p.return_number, 9);
    assert_eq!(p.number_of_returns, 15);
    assert!(p.is_synthetic);
    assert!(!p.is_key_point);
    assert!(p.is_withheld);
    assert!(p.is_overlap);
    assert_eq!(p.scanner_channel, 2);
    assert!(!p.scan_direction_flag);
    assert!(p.edge_of_flight_line);
    assert_eq!(p.classification, 200);
    assert_eq!(p.scan_angle_raw, -5000);
    assert_eq!(p.user_data, 5);
    assert_eq!(p.point_source_id, 31000);
    assert_eq!(p.gps_time_bits.map(f64::from_bits), Some(99.5));
    assert_eq!(p.color, None);
    assert_eq!(p.nir, None);
}

#[test]
fn format8_carries_color_and_nir() {
    let mut d = record6();
    d.extend(&100u16.to_le_bytes());
    d.extend(&200u16.to_le_bytes());
    d.extend(&300u16.to_le_bytes());
    d.extend(&400u16.to_le_bytes());
    assert_eq!(d.len(), 38);
    let p = decode_record(8, &d).unwrap();
    assert_eq!(p.color, Some(Color { red: 100, green: 200, blue: 300 }));
    assert_eq!(p.nir, Some(400));
}

#[test]
fn format5_carries_gps_time_color_and_wave_packet() {
    let mut d = record0();
    d.extend(&7.5f64.to_le_bytes()); // gps time at 20
    d.extend(&11u16.to_le_bytes()); // color at 28
    d.extend(&12u16.to_le_bytes());
    d.extend(&13u16.to_le_bytes());
    d.push(9); // wave packet at 34
    d.extend(&400u64.to_le_bytes());
    d.extend(&32u32.to_le_bytes());
    d.extend(&0.5f32.to_le_bytes());
    d.extend(&1.0f32.to_le_bytes());
    d.extend(&2.0f32.to_le_bytes());
    d.extend(&3.0f32.to_le_bytes());
    assert_eq!(d.len(), 63);
    let p = decode_record(5, &d).unwrap();
    assert_eq!(p.gps_time_bits.map(f64::from_bits), Some(7.5));
    assert_eq!(p.color, Some(Color { red: 11, green: 12, blue: 13 }));
    let w = p.wave_packet.unwrap();
    assert_eq!(w.descriptor_index, 9);
    assert_eq!(w.byte_offset, 400);
    assert_eq!(w.size_in_bytes, 32);
    assert_eq!(f32::from_bits(w.z_t_bits), 3.0);
}

#[test]
fn format10_carries_color_nir_and_wave_packet() {
    let mut d = record6();
    d.extend(&21u16.to_le_bytes()); // color at 30
    d.extend(&22u16.to_le_bytes());
    d.extend(&23u16.to_le_bytes());
    d.extend(&24u16.to_le_bytes()); // nir at 36
    d.push(1); // wave packet at 38
    d.extend(&800u64.to_le_bytes());
    d.extend(&16u32.to_le_bytes());
    d.extend(&4.0f32.to_le_bytes());
    d.extend(&5.0f32.to_le_bytes());
    d.extend(&6.0f32.to_le_bytes());
    d.extend(&7.0f32.to_le_bytes());
    assert_eq!(d.len(), 67);
    let p = decode_record(10, &d).unwrap();
    assert_eq!(p.color, Some(Color { red: 21, green: 22, blue: 23 }));
    assert_eq!(p.nir, Some(24));
    let w = p.wave_packet.unwrap();
    assert_eq!(w.descriptor_index, 1);
    assert_eq!(w.byte_offset, 800);
    assert_eq!(f32::from_bits(w.return_point_location_bits), 4.0);
}

#[test]
fn extra_bytes_after_standard_fields_are_tolerated() {
    let mut d = record0();
    d.extend(&[0xAA, 0xBB, 0xCC]);
    let p = decode_record(0, &d).unwrap();
    assert_eq!(p.x_raw, 1000000);
    assert_eq!(p.point_source_id, 4242);
}

#[test]
fn decode_rejects_unknown_layout() {
    let d = record0();
    assert_eq!(
        decode_record(11, &d),
        Err(LasError::UnknownLayout { id: 11 })
    );
}

#[test]
fn rejects_short_record() {
    let d = record0()[..19].to_vec();
    assert_eq!(
        decode_record(0, &d),
        Err(LasError::TruncatedInput { offset: 0, needed: 20, available: 19 })
    );
}
