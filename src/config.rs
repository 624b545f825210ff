//! Turning the values read from the command line into the options of a run.

use vstd::prelude::*;
use crate::format::{file_ending_of, CompressionFormat, CompressionFormatParseError};
use crate::options::{ArchiveOptions, MwdhOptions, ServerOptions};
use crate::text::{
    extension, extension_of, parse_usize, str_eq, to_string_exact, usize_value,
};

verus! {

/// Budget, in MiB, for compressed batches held in memory.
pub const DEFAULT_MEMORY_LIMIT_MIB: u64 = 512;

/// The archive settings as given on the command line.
pub struct ArchiveArgs {
    pub world_path: String,
    pub world_name: String,
    pub include_nether: bool,
    pub include_end: bool,
    pub include_overworld: bool,
    pub is_bukkit: bool,
    pub compression_format: String,
    pub compression_level: Option<i8>,
    /// Thread count for everything, unless a more specific one is given.
    pub threads: Option<String>,
    pub compression_threads: Option<String>,
    /// Archive name without its extension.
    pub file_name: String,
}

/// The server settings as given on the command line.
pub struct HostArgs {
    pub host_path: String,
    pub bind: String,
    pub port: u16,
    pub threads: Option<String>,
    pub server_threads: Option<String>,
    pub path_to_archive: Option<String>,
}

#[derive(Debug, Clone, Copy, PartialEq, Eq, Structural)]
pub enum ConfigError {
    /// No dimension is included.
    NoDimension,
    /// A thread count is not an unsigned number.
    BadThreadCount,
    /// Zero threads even after asking how many CPUs there are.
    NoThreads,
    /// The format is neither `zip` nor `zstd`.
    UnknownFormat,
    /// The level is outside what the format allows.
    LevelOutOfRange,
    /// Serving only, without an archive to serve.
    MissingArchivePath,
    /// The archive to serve ends in neither `.zst` nor `.zip`.
    InvalidFileEnding,
    /// An archive path given while the archive is being made.
    ArchivePathWhileArchiving,
}

impl ConfigError {
    pub fn from_parse_error(_e: CompressionFormatParseError) -> (r: ConfigError)
        ensures
            r == ConfigError::UnknownFormat,
    {
        ConfigError::UnknownFormat
    }
}

pub open spec fn opt_view(o: Option<String>) -> Option<Seq<char>> {
    match o {
        Some(s) => Some(s@),
        None => None,
    }
}

/// The thread count text in force: the specific one, else the general one,
/// else `0`.
pub open spec fn thread_text(specific: Option<Seq<char>>, general: Option<Seq<char>>) -> Seq<char> {
    match specific {
        Some(s) => s,
        None => match general {
            Some(g) => g,
            None => "0"@,
        },
    }
}

/// The thread count a text asks for; `0` means one per CPU.
pub open spec fn resolved_threads(text: Seq<char>, cpus: nat) -> Option<nat> {
    match usize_value(text) {
        Some(n) => if n == 0 {
            Some(cpus)
        } else {
            Some(n)
        },
        None => None,
    }
}

pub fn resolve_thread_count(
    specific: &Option<String>,
    general: &Option<String>,
    cpus: usize,
) -> (r: Result<usize, ConfigError>)
    ensures
        ({
            let want = resolved_threads(thread_text(opt_view(*specific), opt_view(*general)), cpus as nat);
            &&& want is None <==> r == Err::<usize, ConfigError>(ConfigError::BadThreadCount)
            &&& want == Some(0nat) <==> r == Err::<usize, ConfigError>(ConfigError::NoThreads)
            &&& r matches Ok(n) ==> want == Some(n as nat) && n > 0
            &&& (want matches Some(n) && n > 0) ==> r is Ok
        }),
{
    let text: &str = match specific {
        Some(s) => s.as_str(),
        None => match general {
            Some(g) => g.as_str(),
            None => "0",
        },
    };
    match parse_usize(text) {
        None => Err(ConfigError::BadThreadCount),
        Some(n) => {
            let count = if n == 0 {
                cpus
            } else {
                n
            };
            if count == 0 {
                Err(ConfigError::NoThreads)
            } else {
                Ok(count)
            }
        },
    }
}

/// The level used when none is given: fast for Zstandard, the usual
/// default for ZIP.
pub open spec fn default_level_of(f: CompressionFormat) -> i8 {
    match f {
        CompressionFormat::ZipDeflate => 6i8,
        CompressionFormat::TarZstd => -7i8,
    }
}

/// The levels a format accepts: 0 to 9 for ZIP, -7 to 22 for Zstandard.
pub open spec fn level_fits(f: CompressionFormat, level: i8) -> bool {
    match f {
        CompressionFormat::ZipDeflate => 0 <= level <= 9,
        CompressionFormat::TarZstd => -7 <= level <= 22,
    }
}

pub fn default_level(f: CompressionFormat) -> (r: i8)
    ensures
        r == default_level_of(f),
{
    match f {
        CompressionFormat::ZipDeflate => 6,
        CompressionFormat::TarZstd => -7,
    }
}

pub fn level_is_valid(f: CompressionFormat, level: i8) -> (r: bool)
    ensures
        r == level_fits(f, level),
{
    match f {
        CompressionFormat::ZipDeflate => 0 <= level && level <= 9,
        CompressionFormat::TarZstd => -7 <= level && level <= 22,
    }
}

/// The format an archive file's extension names: `zst` or `zip`.
pub open spec fn format_for_extension(ext: Option<Seq<char>>) -> Option<CompressionFormat> {
    match ext {
        Some(e) => if e == "zst"@ {
            Some(CompressionFormat::TarZstd)
        } else if e == "zip"@ {
            Some(CompressionFormat::ZipDeflate)
        } else {
            None
        },
        None => None,
    }
}

pub fn compression_format_from_file_extension(path: &str) -> (r: Option<CompressionFormat>)
    ensures
        r == format_for_extension(extension(path@)),
{
    match extension_of(path) {
        Some(e) => {
            if str_eq(e.as_str(), "zst") {
                Some(CompressionFormat::TarZstd)
            } else if str_eq(e.as_str(), "zip") {
                Some(CompressionFormat::ZipDeflate)
            } else {
                None
            }
        },
        None => None,
    }
}

/// The file an archive is written to: the name as given, which carries no
/// extension of its own, followed by a dot and the format's extension.
pub open spec fn output_path_of(archive_name: Seq<char>, f: CompressionFormat) -> Seq<char> {
    archive_name + "."@ + file_ending_of(f)
}

pub fn archive_output_path(archive_name: &str, f: CompressionFormat) -> (r: String)
    ensures
        r@ == output_path_of(archive_name@, f),
{
    let mut path = to_string_exact(archive_name);
    path.append(".");
    path.append(f.get_file_ending());
    path
}

/// The archive options that the arguments ask for, when they are valid.
pub open spec fn archive_options_match(
    a: &ArchiveArgs,
    cpus: nat,
    o: ArchiveOptions,
) -> bool {
    &&& o.world_path@ == a.world_path@
    &&& o.world_name@ == a.world_name@
    &&& o.archive_name@ == a.file_name@
    &&& o.include_nether == a.include_nether
    &&& o.include_end == a.include_end
    &&& o.include_overworld == a.include_overworld
    &&& o.is_bukkit == a.is_bukkit
    &&& Some(o.threads as nat) == resolved_threads(
        thread_text(opt_view(a.compression_threads), opt_view(a.threads)),
        cpus,
    )
    &&& (a.compression_format@ == "zip"@ ==> o.compression_format == CompressionFormat::ZipDeflate)
    &&& (a.compression_format@ == "zstd"@ ==> o.compression_format == CompressionFormat::TarZstd)
    &&& o.compression_level == match a.compression_level {
        Some(l) => l,
        None => default_level_of(o.compression_format),
    }
    &&& o.memory_limit_mb == DEFAULT_MEMORY_LIMIT_MIB
}

/// Whether the server arguments are accepted: a usable thread count.
pub open spec fn host_args_ok(h: &HostArgs, cpus: nat) -> bool {
    resolved_threads(thread_text(opt_view(h.server_threads), opt_view(h.threads)), cpus) matches Some(
        n,
    ) && n > 0
}

/// Whether the archive arguments are accepted.
pub open spec fn archive_args_ok(a: &ArchiveArgs, cpus: nat) -> bool {
    let f = if a.compression_format@ == "zip"@ {
        CompressionFormat::ZipDeflate
    } else {
        CompressionFormat::TarZstd
    };
    &&& a.include_nether || a.include_end || a.include_overworld
    &&& resolved_threads(thread_text(opt_view(a.compression_threads), opt_view(a.threads)), cpus) matches Some(
        n,
    ) && n > 0
    &&& a.compression_format@ == "zip"@ || a.compression_format@ == "zstd"@
    &&& level_fits(
        f,
        match a.compression_level {
            Some(l) => l,
            None => default_level_of(f),
        },
    )
}

/// Checks the archive arguments, in order: at least one dimension, a
/// thread count, a known format, and a level the format accepts.
pub fn resolve_archive_args(a: &ArchiveArgs, cpus: usize) -> (r: Result<ArchiveOptions, ConfigError>)
    ensures
        !(a.include_nether || a.include_end || a.include_overworld) ==> r
            == Err::<ArchiveOptions, ConfigError>(ConfigError::NoDimension),
        (a.include_nether || a.include_end || a.include_overworld) ==> ({
            let want = resolved_threads(
                thread_text(opt_view(a.compression_threads), opt_view(a.threads)),
                cpus as nat,
            );
            let known = a.compression_format@ == "zip"@ || a.compression_format@ == "zstd"@;
            let f = if a.compression_format@ == "zip"@ {
                CompressionFormat::ZipDeflate
            } else {
                CompressionFormat::TarZstd
            };
            let level = match a.compression_level {
                Some(l) => l,
                None => default_level_of(f),
            };
            &&& want is None ==> r == Err::<ArchiveOptions, ConfigError>(ConfigError::BadThreadCount)
            &&& want == Some(0nat) ==> r == Err::<ArchiveOptions, ConfigError>(ConfigError::NoThreads)
            &&& (want matches Some(n) && n > 0 && !known) ==> r == Err::<ArchiveOptions, ConfigError>(
                ConfigError::UnknownFormat,
            )
            &&& (want matches Some(n) && n > 0 && known && !level_fits(f, level)) ==> r
                == Err::<ArchiveOptions, ConfigError>(ConfigError::LevelOutOfRange)
            &&& (want matches Some(n) && n > 0 && known && level_fits(f, level)) ==> (r matches Ok(
                o,
            ) && archive_options_match(a, cpus as nat, o))
        }),
{
    if !(a.include_nether || a.include_end || a.include_overworld) {
        return Err(ConfigError::NoDimension);
    }
    let threads = match resolve_thread_count(&a.compression_threads, &a.threads, cpus) {
        Ok(n) => n,
        Err(e) => {
            return Err(e);
        },
    };
    let format = match CompressionFormat::parse(a.compression_format.as_str()) {
        Ok(f) => f,
        Err(e) => {
            return Err(ConfigError::from_parse_error(e));
        },
    };
    proof {
        reveal_strlit("zip");
        reveal_strlit("zstd");
        assert("zip"@.len() != "zstd"@.len());
    }
    let level = match a.compression_level {
        Some(l) => l,
        None => default_level(format),
    };
    if !level_is_valid(format, level) {
        return Err(ConfigError::LevelOutOfRange);
    }
    Ok(ArchiveOptions {
        world_path: to_string_exact(a.world_path.as_str()),
        world_name: to_string_exact(a.world_name.as_str()),
        archive_name: to_string_exact(a.file_name.as_str()),
        include_nether: a.include_nether,
        include_end: a.include_end,
        include_overworld: a.include_overworld,
        threads,
        compression_level: level,
        compression_format: format,
        is_bukkit: a.is_bukkit,
        memory_limit_mb: DEFAULT_MEMORY_LIMIT_MIB,
    })
}

pub fn copy_opt(o: &Option<String>) -> (r: Option<String>)
    ensures
        opt_view(r) == opt_view(*o),
{
    match o {
        Some(s) => Some(to_string_exact(s.as_str())),
        None => None,
    }
}

/// The server options that the arguments ask for. The format is a
/// placeholder here: it is set from the archive once that is known.
pub fn resolve_host_args(h: &HostArgs, cpus: usize) -> (r: Result<ServerOptions, ConfigError>)
    ensures
        ({
            let want = resolved_threads(
                thread_text(opt_view(h.server_threads), opt_view(h.threads)),
                cpus as nat,
            );
            &&& want is None ==> r == Err::<ServerOptions, ConfigError>(ConfigError::BadThreadCount)
            &&& want == Some(0nat) ==> r == Err::<ServerOptions, ConfigError>(ConfigError::NoThreads)
            &&& (want matches Some(n) && n > 0) ==> (r matches Ok(s) && {
                &&& s.host_path@ == h.host_path@
                &&& s.bind@ == h.bind@
                &&& s.port == h.port
                &&& want == Some(s.threads as nat)
                &&& opt_view(s.path_to_archive) == opt_view(h.path_to_archive)
                &&& s.compression_format == CompressionFormat::TarZstd
            })
        }),
{
    let threads = match resolve_thread_count(&h.server_threads, &h.threads, cpus) {
        Ok(n) => n,
        Err(e) => {
            return Err(e);
        },
    };
    Ok(ServerOptions {
        host_path: to_string_exact(h.host_path.as_str()),
        bind: to_string_exact(h.bind.as_str()),
        port: h.port,
        threads,
        path_to_archive: copy_opt(&h.path_to_archive),
        compression_format: CompressionFormat::TarZstd,
    })
}

/// Serving an archive that already exists: its path must be given, and its
/// extension names the format.
pub fn resolve_host_only(h: &HostArgs, cpus: usize) -> (r: Result<MwdhOptions, ConfigError>)
    ensures
        r matches Ok(MwdhOptions::Server(s)) ==> {
            &&& s.path_to_archive matches Some(p) && opt_view(h.path_to_archive) == Some(p@)
                && Some(s.compression_format) == format_for_extension(extension(p@))
            &&& s.host_path@ == h.host_path@
            &&& s.port == h.port
        },
        r is Ok <==> (host_args_ok(h, cpus as nat) && (h.path_to_archive matches Some(p)
            && format_for_extension(extension(p@)) is Some)),
        r is Ok ==> r matches Ok(MwdhOptions::Server(_)),
        (host_args_ok(h, cpus as nat) && h.path_to_archive is None) ==> r
            == Err::<MwdhOptions, ConfigError>(ConfigError::MissingArchivePath),
{
    let mut server = match resolve_host_args(h, cpus) {
        Ok(s) => s,
        Err(e) => {
            return Err(e);
        },
    };
    let format = match &server.path_to_archive {
        Some(p) => compression_format_from_file_extension(p.as_str()),
        None => {
            return Err(ConfigError::MissingArchivePath);
        },
    };
    match format {
        Some(f) => {
            server.compression_format = f;
            Ok(MwdhOptions::Server(server))
        },
        None => Err(ConfigError::InvalidFileEnding),
    }
}

/// Archiving and then serving: no archive path may be given, since the
/// archive served is the one being made.
pub fn resolve_archive_and_host(a: &ArchiveArgs, h: &HostArgs, cpus: usize) -> (r: Result<
    MwdhOptions,
    ConfigError,
>)
    ensures
        r matches Ok(MwdhOptions::Both { server, archive }) ==> {
            &&& archive_options_match(a, cpus as nat, archive)
            &&& server.path_to_archive matches Some(p) && p@ == output_path_of(
                archive.archive_name@,
                archive.compression_format,
            )
            &&& h.path_to_archive is None
        },
        r is Ok <==> (h.path_to_archive is None && host_args_ok(h, cpus as nat) && archive_args_ok(
            a,
            cpus as nat,
        )),
        r is Ok ==> r matches Ok(MwdhOptions::Both { .. }),
        (h.path_to_archive is Some && host_args_ok(h, cpus as nat) && archive_args_ok(
            a,
            cpus as nat,
        )) ==> r == Err::<MwdhOptions, ConfigError>(ConfigError::ArchivePathWhileArchiving),
{
    let mut server = match resolve_host_args(h, cpus) {
        Ok(s) => s,
        Err(e) => {
            return Err(e);
        },
    };
    let archive = match resolve_archive_args(a, cpus) {
        Ok(o) => o,
        Err(e) => {
            return Err(e);
        },
    };
    if server.path_to_archive.is_some() {
        return Err(ConfigError::ArchivePathWhileArchiving);
    }
    server.path_to_archive = Some(
        archive_output_path(archive.archive_name.as_str(), archive.compression_format),
    );
    Ok(MwdhOptions::Both { server, archive })
}

/// Relies on `num_cpus::get`: the number of logical CPUs this process may
/// use, which its documentation promises is at least 1.
#[verifier::external_body]
fn available_cpus() -> (r: usize)
    ensures
        r >= 1,
{
    num_cpus::get()
}

/// Archiving only, on this machine: a thread count of 0 means one worker
/// per available CPU.
pub fn archive_options_from_args(a: &ArchiveArgs) -> (r: Result<MwdhOptions, ConfigError>)
    ensures
        !(a.include_nether || a.include_end || a.include_overworld) ==> r == Err::<
            MwdhOptions,
            ConfigError,
        >(ConfigError::NoDimension),
        exists|c: nat|
            c >= 1 && (r is Ok <==> archive_args_ok(a, c)) && (r matches Ok(MwdhOptions::Archive(o))
                ==> archive_options_match(a, c, o)),
        r is Ok ==> r matches Ok(MwdhOptions::Archive(_)),
{
    let cpus = available_cpus();
    let r = match resolve_archive_args(a, cpus) {
        Ok(o) => Ok(MwdhOptions::Archive(o)),
        Err(e) => Err(e),
    };
    assert((r is Ok <==> archive_args_ok(a, cpus as nat)) && (r matches Ok(MwdhOptions::Archive(o))
        ==> archive_options_match(a, cpus as nat, o)));
    r
}

/// Serving only, on this machine.
pub fn host_options_from_args(h: &HostArgs) -> (r: Result<MwdhOptions, ConfigError>)
    ensures
        exists|c: nat|
            c >= 1 && (r is Ok <==> (host_args_ok(h, c) && (h.path_to_archive matches Some(p)
                && format_for_extension(extension(p@)) is Some))),
        r matches Ok(MwdhOptions::Server(s)) ==> {
            &&& s.path_to_archive matches Some(p) && opt_view(h.path_to_archive) == Some(p@)
                && Some(s.compression_format) == format_for_extension(extension(p@))
            &&& s.host_path@ == h.host_path@
            &&& s.port == h.port
        },
        r is Ok ==> r matches Ok(MwdhOptions::Server(_)),
{
    let cpus = available_cpus();
    resolve_host_only(h, cpus)
}

/// Archiving and then serving, on this machine.
pub fn archive_and_host_options_from_args(a: &ArchiveArgs, h: &HostArgs) -> (r: Result<
    MwdhOptions,
    ConfigError,
>)
    ensures
        exists|c: nat|
            c >= 1 && (r is Ok <==> (h.path_to_archive is None && host_args_ok(h, c)
                && archive_args_ok(a, c))) && (r matches Ok(MwdhOptions::Both { server, archive })
                ==> archive_options_match(a, c, archive)),
        r matches Ok(MwdhOptions::Both { server, archive }) ==> server.path_to_archive matches Some(
            p,
        ) && p@ == output_path_of(archive.archive_name@, archive.compression_format),
        r is Ok ==> r matches Ok(MwdhOptions::Both { .. }),
{
    let cpus = available_cpus();
    resolve_archive_and_host(a, h, cpus)
}

} // verus!
