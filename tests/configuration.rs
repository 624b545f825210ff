use mwdh::config::{
    archive_and_host_options_from_args, archive_options_from_args, archive_output_path, compression_format_from_file_extension, default_level, level_is_valid,
    resolve_archive_and_host, resolve_archive_args, resolve_host_only, resolve_thread_count,
    ArchiveArgs, ConfigError, HostArgs,
};
use mwdh::text::parse_usize;
use mwdh::{CompressionFormat, MwdhOptions};

fn archive_args() -> ArchiveArgs {
    ArchiveArgs {
        world_path: ".".to_string(),
        world_name: "world".to_string(),
        include_nether: false,
        include_end: false,
        include_overworld: true,
        is_bukkit: false,
        compression_format: "zstd".to_string(),
        compression_level: None,
        threads: Some("0".to_string()),
        compression_threads: None,
        file_name: "world".to_string(),
    }
}

fn host_args(path: Option<&str>) -> HostArgs {
    HostArgs {
        host_path: "world".to_string(),
        bind: "0.0.0.0".to_string(),
        port: 3000,
        threads: Some("0".to_string()),
        server_threads: None,
        path_to_archive: path.map(|p| p.to_string()),
    }
}

#[test]
fn unsigned_numbers() {
    assert_eq!(parse_usize("42"), Some(42));
    assert_eq!(parse_usize("+7"), Some(7));
    assert_eq!(parse_usize("007"), Some(7));
    assert_eq!(parse_usize("18446744073709551615"), Some(usize::MAX));
    assert_eq!(parse_usize("18446744073709551616"), None);
    assert_eq!(parse_usize(""), None);
    assert_eq!(parse_usize("+"), None);
    assert_eq!(parse_usize("-1"), None);
    assert_eq!(parse_usize("4x"), None);
    assert_eq!(parse_usize(" 4"), None);
}

#[test]
fn thread_counts() {
    let s = |x: &str| Some(x.to_string());
    assert_eq!(resolve_thread_count(&s("3"), &s("5"), 8), Ok(3));
    assert_eq!(resolve_thread_count(&None, &s("5"), 8), Ok(5));
    assert_eq!(resolve_thread_count(&None, &None, 8), Ok(8));
    assert_eq!(resolve_thread_count(&s("0"), &s("5"), 6), Ok(6));
    assert_eq!(resolve_thread_count(&s("many"), &None, 8), Err(ConfigError::BadThreadCount));
    assert_eq!(resolve_thread_count(&None, &None, 0), Err(ConfigError::NoThreads));
}

#[test]
fn at_least_one_dimension() {
    let mut a = archive_args();
    a.include_overworld = false;
    assert_eq!(resolve_archive_args(&a, 4).err(), Some(ConfigError::NoDimension));
    a.include_end = true;
    assert!(resolve_archive_args(&a, 4).is_ok());
}

#[test]
fn archive_defaults() {
    let o = resolve_archive_args(&archive_args(), 4).ok().unwrap();
    assert_eq!(o.threads, 4);
    assert_eq!(o.compression_format, CompressionFormat::TarZstd);
    assert_eq!(o.compression_level, -7);
    assert_eq!(o.memory_limit_mb, 512);
    assert_eq!(o.archive_name, "world");
    assert!(o.include_overworld && !o.include_nether && !o.include_end && !o.is_bukkit);
}

#[test]
fn zip_defaults_to_level_six() {
    let mut a = archive_args();
    a.compression_format = "zip".to_string();
    let o = resolve_archive_args(&a, 4).ok().unwrap();
    assert_eq!(o.compression_format, CompressionFormat::ZipDeflate);
    assert_eq!(o.compression_level, 6);
    assert_eq!(default_level(CompressionFormat::ZipDeflate), 6);
    assert_eq!(default_level(CompressionFormat::TarZstd), -7);
}

#[test]
fn levels_per_format() {
    assert!(level_is_valid(CompressionFormat::ZipDeflate, 0));
    assert!(level_is_valid(CompressionFormat::ZipDeflate, 9));
    assert!(!level_is_valid(CompressionFormat::ZipDeflate, 10));
    assert!(!level_is_valid(CompressionFormat::ZipDeflate, -1));
    assert!(level_is_valid(CompressionFormat::TarZstd, -7));
    assert!(level_is_valid(CompressionFormat::TarZstd, 22));
    assert!(!level_is_valid(CompressionFormat::TarZstd, 23));
    assert!(!level_is_valid(CompressionFormat::TarZstd, -8));
}

#[test]
fn archive_argument_errors() {
    let mut a = archive_args();
    a.compression_threads = Some("two".to_string());
    assert_eq!(resolve_archive_args(&a, 4).err(), Some(ConfigError::BadThreadCount));
    let mut a = archive_args();
    a.compression_format = "rar".to_string();
    assert_eq!(resolve_archive_args(&a, 4).err(), Some(ConfigError::UnknownFormat));
    let mut a = archive_args();
    a.compression_format = "zip".to_string();
    a.compression_level = Some(12);
    assert_eq!(resolve_archive_args(&a, 4).err(), Some(ConfigError::LevelOutOfRange));
    a.compression_format = "zstd".to_string();
    assert_eq!(resolve_archive_args(&a, 4).ok().map(|o| o.compression_level), Some(12));
}

#[test]
fn formats_by_file_ending() {
    assert_eq!(compression_format_from_file_extension("out/world.tar.zst"), Some(CompressionFormat::TarZstd));
    assert_eq!(compression_format_from_file_extension("world.zip"), Some(CompressionFormat::ZipDeflate));
    assert_eq!(compression_format_from_file_extension("world.tar"), None);
    assert_eq!(compression_format_from_file_extension("world"), None);
    assert_eq!(compression_format_from_file_extension(".zip"), None);
}

#[test]
fn output_paths() {
    assert_eq!(archive_output_path("world", CompressionFormat::TarZstd), "world.tar.zst");
    assert_eq!(archive_output_path("world", CompressionFormat::ZipDeflate), "world.zip");
    assert_eq!(archive_output_path("my.world", CompressionFormat::TarZstd), "my.world.tar.zst");
    assert_eq!(archive_output_path("out/backup.v2", CompressionFormat::ZipDeflate), "out/backup.v2.zip");
    assert_eq!(archive_output_path(".hidden", CompressionFormat::ZipDeflate), ".hidden.zip");
}

#[test]
fn serving_only() {
    match resolve_host_only(&host_args(Some("w.zip")), 2) {
        Ok(MwdhOptions::Server(s)) => {
            assert_eq!(s.compression_format, CompressionFormat::ZipDeflate);
            assert_eq!(s.path_to_archive.as_deref(), Some("w.zip"));
            assert_eq!(s.threads, 2);
            assert_eq!(s.port, 3000);
        }
        _ => panic!("expected server options"),
    }
    match resolve_host_only(&host_args(Some("w.tar.zst")), 2) {
        Ok(MwdhOptions::Server(s)) => assert_eq!(s.compression_format, CompressionFormat::TarZstd),
        _ => panic!("expected server options"),
    }
    assert_eq!(resolve_host_only(&host_args(Some("w.tar")), 2).err(), Some(ConfigError::InvalidFileEnding));
    assert_eq!(resolve_host_only(&host_args(None), 2).err(), Some(ConfigError::MissingArchivePath));
}

#[test]
fn archiving_then_serving() {
    match resolve_archive_and_host(&archive_args(), &host_args(None), 2) {
        Ok(MwdhOptions::Both { server, archive }) => {
            assert_eq!(server.path_to_archive.as_deref(), Some("world.tar.zst"));
            assert_eq!(archive.threads, 2);
        }
        _ => panic!("expected both"),
    }
    assert_eq!(
        resolve_archive_and_host(&archive_args(), &host_args(Some("x.zip")), 2).err(),
        Some(ConfigError::ArchivePathWhileArchiving)
    );
}

// A thread count of 0 asks the machine: at least one worker comes back.
#[test]
fn zero_threads_means_one_per_cpu() {
    match archive_options_from_args(&archive_args()) {
        Ok(MwdhOptions::Archive(o)) => assert!(o.threads >= 1),
        _ => panic!("expected archive options"),
    }
    match archive_and_host_options_from_args(&archive_args(), &host_args(None)) {
        Ok(MwdhOptions::Both { server, archive }) => {
            assert!(server.threads >= 1 && archive.threads >= 1);
            assert_eq!(server.path_to_archive.as_deref(), Some("world.tar.zst"));
        }
        _ => panic!("expected both"),
    }
    let mut a = archive_args();
    a.threads = Some("3".to_string());
    match archive_options_from_args(&a) {
        Ok(MwdhOptions::Archive(o)) => assert_eq!(o.threads, 3),
        _ => panic!("expected archive options"),
    }
}
