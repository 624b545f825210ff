//! What one run is asked to do, and the roots it archives.

use vstd::prelude::*;
use crate::format::CompressionFormat;
use crate::text::{join_path, path_join};

verus! {

/// How one archive is to be made.
#[derive(Clone)]
pub struct ArchiveOptions {
    /// Directory that holds the world directories.
    pub world_path: String,
    /// Name of the overworld directory.
    pub world_name: String,
    /// Output file name, before the format's extension is set.
    pub archive_name: String,
    pub include_nether: bool,
    pub include_end: bool,
    pub include_overworld: bool,
    /// Number of compression workers.
    pub threads: usize,
    /// Codec level: 0 to 9 for ZIP, -7 to 22 for Zstandard.
    pub compression_level: i8,
    pub compression_format: CompressionFormat,
    /// Whether each dimension has a directory of its own beside the world
    /// (`world_nether`, `world_the_end`) rather than `DIM-1` and `DIM1` inside it.
    pub is_bukkit: bool,
    /// Budget, in MiB, for compressed batches held in memory.
    pub memory_limit_mb: u64,
}

/// How the finished archive is served.
#[derive(Clone)]
pub struct ServerOptions {
    /// Path, without the leading `/`, that the download is served on.
    pub host_path: String,
    /// Address to listen on.
    pub bind: String,
    pub port: u16,
    /// Number of runtime threads.
    pub threads: usize,
    pub path_to_archive: Option<String>,
    /// Decides the media type announced for the download.
    pub compression_format: CompressionFormat,
}

/// What a run does: serve, archive, or archive and then serve.
#[derive(Clone)]
pub enum MwdhOptions {
    Server(ServerOptions),
    Archive(ArchiveOptions),
    Both { server: ServerOptions, archive: ArchiveOptions },
}

/// A one-element sequence when `b` holds, else an empty one.
pub open spec fn when(b: bool, x: Seq<char>) -> Seq<Seq<char>> {
    if b {
        seq![x]
    } else {
        Seq::empty()
    }
}

/// The directories an archive is built from, in order. With one directory
/// per dimension each included dimension brings its own; otherwise the
/// world directory holds them all, and unwanted ones are pruned while scanning.
pub open spec fn archive_roots(o: ArchiveOptions) -> Seq<Seq<char>> {
    let base = o.world_path@;
    if o.is_bukkit {
        when(o.include_overworld, path_join(base, "world"@))
            + when(o.include_nether, path_join(base, "world_nether"@))
            + when(o.include_end, path_join(base, "world_the_end"@))
    } else {
        seq![path_join(base, "world"@)]
    }
}

pub fn paths_to_be_archived(args: &ArchiveOptions) -> (r: Vec<String>)
    ensures
        r@.map_values(|p: String| p@) == archive_roots(*args),
{
    let base = args.world_path.as_str();
    let mut paths: Vec<String> = Vec::new();
    if args.is_bukkit {
        if args.include_overworld {
            paths.push(join_path(base, "world"));
        }
        if args.include_nether {
            paths.push(join_path(base, "world_nether"));
        }
        if args.include_end {
            paths.push(join_path(base, "world_the_end"));
        }
    } else {
        paths.push(join_path(base, "world"));
    }
    assert(paths@.map_values(|p: String| p@) =~= archive_roots(*args));
    paths
}

/// The dimensions a run includes, listed for the user.
pub open spec fn inclusions_text(overworld: bool, nether: bool, end: bool) -> Seq<char> {
    let first = if overworld {
        "Overworld"@
    } else {
        Seq::empty()
    };
    let second = if nether {
        (if overworld {
            ", "@
        } else {
            Seq::empty()
        }) + "Nether"@
    } else {
        Seq::empty()
    };
    let third = if end {
        (if overworld || nether {
            ", "@
        } else {
            Seq::empty()
        }) + "The End"@
    } else {
        Seq::empty()
    };
    "Including "@ + first + second + third
}

pub fn inclusions_line(options: &ArchiveOptions) -> (r: String)
    ensures
        r@ == inclusions_text(options.include_overworld, options.include_nether, options.include_end),
{
    let mut line = crate::text::to_string_exact("Including ");
    let mut listed: usize = 0;
    if options.include_overworld {
        line.append("Overworld");
        listed = listed + 1;
    }
    if options.include_nether {
        if listed > 0 {
            line.append(", ");
        }
        line.append("Nether");
        listed = listed + 1;
    }
    if options.include_end {
        if listed > 0 {
            line.append(", ");
        }
        line.append("The End");
    }
    assert(line@ =~= inclusions_text(
        options.include_overworld,
        options.include_nether,
        options.include_end,
    ));
    line
}

} // verus!
