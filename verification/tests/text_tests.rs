use core_storage::format_size;
use core_storage::raw::{self, Reader, Writer};
use core_storage::text::{find_char, starts_with, str_eq, u64_to_decimal, u64_to_hex};

fn float_size(bytes: u64) -> String {
    const KB: u64 = 1024;
    const MB: u64 = KB * 1024;
    const GB: u64 = MB * 1024;
    const TB: u64 = GB * 1024;
    if bytes >= TB {
        format!("{:.2} TB", bytes as f64 / TB as f64)
    } else if bytes >= GB {
        format!("{:.2} GB", bytes as f64 / GB as f64)
    } else if bytes >= MB {
        format!("{:.2} MB", bytes as f64 / MB as f64)
    } else if bytes >= KB {
        format!("{:.2} KB", bytes as f64 / KB as f64)
    } else {
        format!("{bytes} B")
    }
}

#[test]
fn format_size_examples() {
    assert_eq!(format_size(0), "0 B");
    assert_eq!(format_size(1023), "1023 B");
    assert_eq!(format_size(1024), "1.00 KB");
    assert_eq!(format_size(1536), "1.50 KB");
    assert_eq!(format_size(1_048_576), "1.00 MB");
    assert_eq!(format_size(1_000_204_886_016), "931.51 GB");
    assert_eq!(format_size(1_099_511_627_776), "1.00 TB");
}

#[test]
fn format_size_rounds_ties_like_floats() {
    // 1.125 KB and 1.375 KB are exact ties at two decimals
    assert_eq!(format_size(1152), float_size(1152));
    assert_eq!(format_size(1408), float_size(1408));
    assert_eq!(format_size(1029), float_size(1029));
}

#[test]
fn format_size_agrees_with_float_formatting() {
    let mut samples: Vec<u64> = vec![u64::MAX, u64::MAX - 1, 1 << 53, (1 << 53) + 1, (1 << 54) + 3, 9_007_199_254_740_993];
    let mut x: u64 = 1;
    for _ in 0..4000 {
        x = x.wrapping_mul(6364136223846793005).wrapping_add(1442695040888963407);
        samples.push(x);
        samples.push(x >> 13);
        samples.push(x >> 27);
        samples.push(x >> 40);
        samples.push(x >> 50);
        samples.push((x >> 54) * 1024 + 512);
    }
    for k in 10..64 {
        samples.push((1u64 << k) - 1);
        samples.push(1u64 << k);
        samples.push((1u64 << k) + (1u64 << (k - 3)));
    }
    for b in samples {
        assert_eq!(format_size(b), float_size(b), "bytes = {b}");
    }
}

#[test]
fn decimal_and_hex() {
    assert_eq!(u64_to_decimal(0), "0");
    assert_eq!(u64_to_decimal(1234567890), "1234567890");
    assert_eq!(u64_to_decimal(u64::MAX), u64::MAX.to_string());
    assert_eq!(u64_to_hex(0x14), "14");
    assert_eq!(u64_to_hex(0xdeadbeef), "deadbeef");
    assert_eq!(u64_to_hex(5), "5");
}

#[test]
fn string_helpers() {
    assert!(str_eq("sort", "sort"));
    assert!(!str_eq("sort", "sorted"));
    assert_eq!(find_char("name=value=x", '='), Some(4));
    assert_eq!(find_char("név", '='), None);
    assert!(starts_with("--disk", "--"));
    assert!(!starts_with("-d", "--"));
}

#[test]
fn reader_reads_little_endian() {
    let buf = [1u8, 2, 3, 4, 5, 6, 7, 8, 9, 10, 11, 12, 13, 14, 15, 16, 17];
    let mut r = Reader::new(&buf);
    assert_eq!(r.read_u8(), 1);
    assert_eq!(r.read_u32(), u32::from_le_bytes([2, 3, 4, 5]));
    assert_eq!(r.read_u64(), u64::from_le_bytes([6, 7, 8, 9, 10, 11, 12, 13]));
    assert_eq!(r.position(), 13);
    assert_eq!(r.read_bytes(2), vec![14, 15]);
    assert_eq!(r.read_bytes_from(0, 3), vec![1, 2, 3]);
    r.skip(1);
    assert_eq!(r.position(), 16);
    r.seek(1);
    assert_eq!(r.read_u8(), 2);
}

#[test]
fn writer_writes_little_endian() {
    let mut w = Writer::new();
    w.write_u8(0xaa);
    w.write_u32(0x11223344);
    w.write_u64(0x0102030405060708);
    w.write_bytes(b"xy");
    assert_eq!(w.position(), 15);
    w.skip(2);
    assert_eq!(w.position(), 17);
    w.seek(20);
    assert_eq!(w.position(), 20);
    w.seek(3);
    assert_eq!(w.position(), 20);
    w.write_bytes_at(1, &[9, 9]);
    let b = w.into_bytes();
    assert_eq!(&b[0..5], &[0xaa, 9, 9, 0x22, 0x11]);
    assert_eq!(&b[5..13], &0x0102030405060708u64.to_le_bytes());
    assert_eq!(&b[13..15], b"xy");
    assert_eq!(&b[15..20], &[0, 0, 0, 0, 0]);
}

#[test]
fn write_then_read_gives_the_value() {
    let mut w = Writer::with_capacity(16);
    w.write_u32(0xfeedface);
    w.write_u64(u64::MAX - 5);
    let bytes = w.into_bytes();
    let mut r = Reader::new(&bytes);
    assert_eq!(r.read_u32(), 0xfeedface);
    assert_eq!(r.read_u64(), u64::MAX - 5);
}

#[test]
fn free_writers_append() {
    let mut v = vec![1u8];
    raw::write_u8(&mut v, 2);
    raw::write_u16(&mut v, 0x0403);
    raw::write_u32(&mut v, 0x08070605);
    raw::write_u64(&mut v, 0x100f0e0d0c0b0a09);
    raw::write_bytes(&mut v, &[0x11, 0x12]);
    assert_eq!(v, (1u8..=0x12).filter(|b| *b <= 0x10 || *b >= 0x11).collect::<Vec<u8>>());
}
