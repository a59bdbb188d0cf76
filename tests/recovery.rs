use crc32_break::be::{read_be_u32, to_be_bytes};
use crc32_break::ihdr::IHDR;
use crc32_break::repair::{apply_fix, try_fix_crc32, RecoveryError};
use crc32_break::search::{recover, try_fix_both, try_fix_height, try_fix_width, Recovery};

/// A PNG prefix: signature, IHDR length, payload for an 8-bit RGB image of
/// the given size, and its correct checksum.
fn png(width: u32, height: u32) -> Vec<u8> {
    let mut v: Vec<u8> = vec![0x89, b'P', b'N', b'G', 0x0D, 0x0A, 0x1A, 0x0A, 0, 0, 0, 13];
    v.extend_from_slice(b"IHDR");
    v.extend_from_slice(&width.to_be_bytes());
    v.extend_from_slice(&height.to_be_bytes());
    v.extend_from_slice(&[8, 2, 0, 0, 0]);
    let crc = crc32fast::hash(&v[12..29]);
    v.extend_from_slice(&crc.to_be_bytes());
    v.extend_from_slice(&[0, 0, 0, 0, b'I', b'E', b'N', b'D', 0xAE, 0x42, 0x60, 0x82]);
    v
}

fn set_u32(v: &mut [u8], at: usize, x: u32) {
    v[at..at + 4].copy_from_slice(&x.to_be_bytes());
}

#[test]
fn be_round_trip_values() {
    assert_eq!(to_be_bytes(0x1234_5678), [0x12, 0x34, 0x56, 0x78]);
    assert_eq!(read_be_u32(&[9, 0xDE, 0xAD, 0xBE, 0xEF], 1), 0xDEAD_BEEF);
    assert_eq!(read_be_u32(&to_be_bytes(600), 0), 600);
}

#[test]
fn known_checksum_of_one_pixel_header() {
    let payload = [b'I', b'H', b'D', b'R', 0, 0, 0, 1, 0, 0, 0, 1, 8, 6, 0, 0, 0];
    let ihdr = IHDR::new(&payload);
    assert_eq!(ihdr.crc32(None, None), 0x1F15_C489);
    assert_eq!(ihdr.get_data(None, None), payload.to_vec());
}

#[test]
fn get_data_substitutes_fields() {
    let file = png(800, 600);
    let (ihdr, _) = IHDR::from_png(&file).unwrap();
    assert_eq!(ihdr.width(), 800);
    assert_eq!(ihdr.height(), 600);
    let data = ihdr.get_data(Some(1), Some(0x0102_0304));
    assert_eq!(&data[0..4], b"IHDR");
    assert_eq!(&data[4..8], &[0, 0, 0, 1]);
    assert_eq!(&data[8..12], &[1, 2, 3, 4]);
    assert_eq!(&data[12..], &[8, 2, 0, 0, 0]);
    assert_ne!(ihdr.crc32(Some(1), None), ihdr.crc32(None, None));
    assert_eq!(ihdr.crc32(Some(800), Some(600)), ihdr.crc32(None, None));
}

#[test]
fn valid_file_is_unchanged() {
    let file = png(640, 480);
    let (ihdr, stored) = IHDR::from_png(&file).unwrap();
    assert_eq!(ihdr.crc32(None, None), stored);
    assert_eq!(recover(&ihdr, stored), Recovery::Unchanged);
    let (rec, out) = try_fix_crc32(&file).unwrap();
    assert_eq!(rec, Recovery::Unchanged);
    assert_eq!(out, file);
}

#[test]
fn corrupted_height_is_recovered() {
    let good = png(800, 600);
    let mut bad = good.clone();
    set_u32(&mut bad, 20, 0);
    let (ihdr, stored) = IHDR::from_png(&bad).unwrap();
    assert_eq!(stored, read_be_u32(&good, 29));
    assert_ne!(ihdr.crc32(None, None), stored);
    assert_eq!(try_fix_height(&ihdr, stored), Some(600));
    assert_eq!(recover(&ihdr, stored), Recovery::HeightFixed(600));
    let (rec, out) = try_fix_crc32(&bad).unwrap();
    assert_eq!(rec, Recovery::HeightFixed(600));
    assert_eq!(&out[29..33], &good[29..33]);
    assert_eq!(out, good);
}

#[test]
fn corrupted_width_is_recovered() {
    let good = png(123, 45);
    let mut bad = good.clone();
    set_u32(&mut bad, 16, 0xFFFF_0000);
    let (ihdr, stored) = IHDR::from_png(&bad).unwrap();
    assert_eq!(try_fix_height(&ihdr, stored), None);
    assert_eq!(try_fix_width(&ihdr, stored), Some(123));
    let (rec, out) = try_fix_crc32(&bad).unwrap();
    assert_eq!(rec, Recovery::WidthFixed(123));
    assert_eq!(out, good);
}

#[test]
fn both_fields_corrupted_needs_combined_search() {
    let good = png(10, 10);
    let mut bad = good.clone();
    set_u32(&mut bad, 16, 1000);
    set_u32(&mut bad, 20, 2000);
    let (ihdr, stored) = IHDR::from_png(&bad).unwrap();
    assert_eq!(try_fix_height(&ihdr, stored), None);
    assert_eq!(try_fix_width(&ihdr, stored), None);
    assert_eq!(try_fix_both(&ihdr, stored), Some((10, 10)));
}

#[test]
fn both_fields_corrupted_file_is_repaired() {
    let good = png(10, 10);
    let mut bad = good.clone();
    set_u32(&mut bad, 16, 1000);
    set_u32(&mut bad, 20, 2000);
    let (rec, out) = try_fix_crc32(&bad).unwrap();
    assert_eq!(rec, Recovery::BothFixed(10, 10));
    assert_eq!(out, good);
}

#[test]
fn candidates_stop_below_65535() {
    let good = png(7, 65535);
    let mut bad = good.clone();
    set_u32(&mut bad, 20, 3);
    let (ihdr, stored) = IHDR::from_png(&bad).unwrap();
    assert_ne!(ihdr.crc32(None, None), stored);
    assert_eq!(ihdr.crc32(None, Some(65535)), stored);
    assert_eq!(try_fix_height(&ihdr, stored), None);
    assert_eq!(try_fix_width(&ihdr, stored), None);
}

#[test]
fn apply_fix_round_trip() {
    let file = png(800, 600);
    let out = apply_fix(&file, Some(1), Some(70000));
    assert_eq!(out.len(), file.len());
    assert_eq!(&out[16..20], &[0, 0, 0, 1]);
    assert_eq!(&out[20..24], &[0, 1, 0x11, 0x70]);
    assert_eq!(&out[33..], &file[33..]);
    let (ihdr, stored) = IHDR::from_png(&out).unwrap();
    assert_eq!(ihdr.crc32(None, None), stored);
    assert_ne!(stored, read_be_u32(&file, 29));
    assert_eq!(apply_fix(&file, None, None), file);
}

#[test]
fn short_buffer_is_malformed() {
    let buf = vec![0u8; 20];
    assert!(matches!(IHDR::from_png(&buf), Err(RecoveryError::MalformedInput)));
    assert_eq!(try_fix_crc32(&buf), Err(RecoveryError::MalformedInput));
    let buf32 = png(1, 1)[..32].to_vec();
    assert_eq!(try_fix_crc32(&buf32), Err(RecoveryError::MalformedInput));
    assert!(IHDR::from_png(&png(1, 1)[..33]).is_ok());
}
