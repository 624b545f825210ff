use mwdh::format::CompressionFormat;
use mwdh::{format_bytes, CompressionFormatParseError};

#[test]
fn mime_types() {
    assert_eq!(CompressionFormat::ZipDeflate.get_mime_type(), "application/zip");
    assert_eq!(CompressionFormat::TarZstd.get_mime_type(), "application/zstd");
}

#[test]
fn file_endings() {
    assert_eq!(CompressionFormat::ZipDeflate.get_file_ending(), "zip");
    assert_eq!(CompressionFormat::TarZstd.get_file_ending(), "tar.zst");
}

#[test]
fn short_names() {
    assert_eq!(CompressionFormat::ZipDeflate.name(), "zip");
    assert_eq!(CompressionFormat::TarZstd.name(), "zstd");
}

#[test]
fn parse_known_names() {
    assert_eq!(CompressionFormat::parse("zip"), Ok(CompressionFormat::ZipDeflate));
    assert_eq!(CompressionFormat::parse("zstd"), Ok(CompressionFormat::TarZstd));
    assert_eq!("zstd".parse::<CompressionFormat>(), Ok(CompressionFormat::TarZstd));
}

#[test]
fn parse_unknown_names() {
    assert_eq!(CompressionFormat::parse("rar"), Err(CompressionFormatParseError));
    assert_eq!(CompressionFormat::parse(""), Err(CompressionFormatParseError));
    assert_eq!(CompressionFormat::parse("ZIP"), Err(CompressionFormatParseError));
}

#[test]
fn bytes_below_one_kib() {
    assert_eq!(format_bytes(0), "0 B");
    assert_eq!(format_bytes(10), "10 B");
    assert_eq!(format_bytes(1023), "1023 B");
}

#[test]
fn bytes_in_kib() {
    assert_eq!(format_bytes(1024), "1.00 KiB");
    assert_eq!(format_bytes(1536), "1.50 KiB");
    assert_eq!(format_bytes(10 * 1024 + 256), "10.25 KiB");
}

#[test]
fn bytes_in_mib_and_gib() {
    assert_eq!(format_bytes(1024 * 1024), "1.00 MiB");
    assert_eq!(format_bytes(1_500_000), "1.43 MiB");
    assert_eq!(format_bytes(1024 * 1024 * 1024), "1.00 GiB");
    assert_eq!(format_bytes(5 * 1024 * 1024 * 1024 + 512 * 1024 * 1024), "5.50 GiB");
}

#[test]
fn bytes_round_to_nearest_hundredth() {
    // 2047 / 1024 = 1.999..., shown as 2.00
    assert_eq!(format_bytes(2047), "2.00 KiB");
    // 1034 / 1024 = 1.00976..., shown as 1.01
    assert_eq!(format_bytes(1034), "1.01 KiB");
}

#[test]
fn bytes_largest_value() {
    assert_eq!(format_bytes(u64::MAX), "17179869184.00 GiB");
}
