use mwdh::options::inclusions_line;
use mwdh::scan::{DirEntryInfo, EntryKind, PruneRules, ScanError, ScanStep, Scanner};
use mwdh::text::file_name_of;
use mwdh::{paths_to_be_archived, ArchiveOptions, CompressionFormat};

fn options(is_bukkit: bool, overworld: bool, nether: bool, end: bool) -> ArchiveOptions {
    ArchiveOptions {
        world_path: "srv".to_string(),
        world_name: "world".to_string(),
        archive_name: "world".to_string(),
        include_nether: nether,
        include_end: end,
        include_overworld: overworld,
        threads: 4,
        compression_level: -7,
        compression_format: CompressionFormat::TarZstd,
        is_bukkit,
        memory_limit_mb: 512,
    }
}

fn dir(name: &str) -> DirEntryInfo {
    DirEntryInfo { name: name.to_string(), kind: EntryKind::Dir }
}

fn file(name: &str) -> DirEntryInfo {
    DirEntryInfo { name: name.to_string(), kind: EntryKind::File }
}

fn read_dir_path(step: ScanStep) -> String {
    match step {
        ScanStep::ReadDir(p) => p,
        other => panic!("expected a directory to list, got {:?}", other),
    }
}

#[test]
fn roots_of_a_vanilla_world() {
    assert_eq!(paths_to_be_archived(&options(false, true, false, false)), vec!["srv/world"]);
    assert_eq!(paths_to_be_archived(&options(false, false, true, true)), vec!["srv/world"]);
}

#[test]
fn roots_of_a_bukkit_world() {
    assert_eq!(
        paths_to_be_archived(&options(true, true, true, true)),
        vec!["srv/world", "srv/world_nether", "srv/world_the_end"]
    );
    assert_eq!(paths_to_be_archived(&options(true, false, true, false)), vec!["srv/world_nether"]);
    assert!(paths_to_be_archived(&options(true, false, false, false)).is_empty());
}

#[test]
fn roots_join_without_doubling_slashes() {
    let mut o = options(false, true, false, false);
    o.world_path = "srv/".to_string();
    assert_eq!(paths_to_be_archived(&o), vec!["srv/world"]);
    o.world_path = "".to_string();
    assert_eq!(paths_to_be_archived(&o), vec!["world"]);
}

#[test]
fn final_names() {
    assert_eq!(file_name_of("srv/world"), Some("world".to_string()));
    assert_eq!(file_name_of("srv/world/"), Some("world".to_string()));
    assert_eq!(file_name_of("a.bin"), Some("a.bin".to_string()));
    assert_eq!(file_name_of("/"), None);
    assert_eq!(file_name_of(""), None);
    assert_eq!(file_name_of("srv/.."), None);
}

#[test]
fn prune_rules_vanilla() {
    let rules = PruneRules::from_options(&options(false, false, false, false));
    assert!(rules.skips_dir("world", "DIM1"));
    assert!(rules.skips_dir("world", "DIM-1"));
    assert!(rules.skips_dir("world", "regions"));
    assert!(rules.skips_dir("world", "entities"));
    assert!(rules.skips_dir("world", "poi"));
    assert!(!rules.skips_dir("DIM-1", "regions"));
    assert!(!rules.skips_dir("world", "data"));
}

#[test]
fn prune_rules_keep_included_dimensions() {
    let rules = PruneRules::from_options(&options(false, true, true, true));
    assert!(!rules.skips_dir("world", "DIM1"));
    assert!(!rules.skips_dir("world", "DIM-1"));
    assert!(!rules.skips_dir("world", "regions"));
}

#[test]
fn prune_rules_bukkit_prunes_nothing() {
    let rules = PruneRules::from_options(&options(true, false, false, false));
    assert!(!rules.skips_dir("world", "DIM1"));
    assert!(!rules.skips_dir("world", "regions"));
}

// One root directory with no files: nothing is found.
#[test]
fn empty_tree_finds_nothing() {
    let o = options(false, true, false, false);
    let mut s = Scanner::new(&o, paths_to_be_archived(&o));
    match s.next_step() {
        ScanStep::StatRoot(p) => assert_eq!(p, "srv/world"),
        other => panic!("unexpected {:?}", other),
    }
    assert!(s.root_found(true).is_ok());
    assert_eq!(read_dir_path(s.next_step()), "srv/world");
    assert!(s.dir_listed(vec![]).is_empty());
    assert!(matches!(s.next_step(), ScanStep::Done));
    assert!(s.into_files().is_empty());
}

// A root that is not a directory is refused.
#[test]
fn file_root_is_refused() {
    let o = options(false, true, false, false);
    let mut s = Scanner::new(&o, vec!["in/a.bin".to_string()]);
    match s.root_found(false) {
        Err(ScanError::NotADirectory(p)) => assert_eq!(p, "in/a.bin"),
        _ => panic!("expected a refusal"),
    }
    match s.next_step() {
        ScanStep::StatRoot(p) => assert_eq!(p, "in/a.bin"),
        other => panic!("unexpected {:?}", other),
    }
}

// A root holding one file: exactly that file is found, named under the root.
#[test]
fn single_file_tree() {
    let o = options(false, true, false, false);
    let mut s = Scanner::new(&o, vec!["in".to_string()]);
    assert!(s.root_found(true).is_ok());
    assert_eq!(read_dir_path(s.next_step()), "in");
    assert_eq!(s.dir_listed(vec![file("a.bin")]), vec!["in/a.bin"]);
    assert!(matches!(s.next_step(), ScanStep::Done));
    let files = s.into_files();
    assert_eq!(files.len(), 1);
    assert_eq!(files[0].src_path, "in/a.bin");
    assert_eq!(files[0].file_name, "in/a.bin");
}

#[test]
fn root_without_a_name_is_refused() {
    let o = options(false, true, false, false);
    let mut s = Scanner::new(&o, vec!["/".to_string()]);
    match s.root_found(true) {
        Err(ScanError::InvalidPath(p)) => assert_eq!(p, "/"),
        _ => panic!("expected an invalid path"),
    }
}

// Overworld excluded, Nether included: regions, entities and poi of the
// world directory are skipped, level.dat and DIM-1 are kept.
#[test]
fn overworld_data_pruned() {
    let o = options(false, false, true, false);
    let mut s = Scanner::new(&o, paths_to_be_archived(&o));
    assert!(s.root_found(true).is_ok());
    assert_eq!(read_dir_path(s.next_step()), "srv/world");
    let found = s.dir_listed(vec![
        dir("regions"),
        dir("entities"),
        dir("poi"),
        file("level.dat"),
        dir("DIM-1"),
        dir("DIM1"),
    ]);
    assert_eq!(found, vec!["srv/world/level.dat"]);
    assert_eq!(read_dir_path(s.next_step()), "srv/world/DIM-1");
    let found = s.dir_listed(vec![dir("region"), file("raids.dat")]);
    assert_eq!(found, vec!["srv/world/DIM-1/raids.dat"]);
    assert_eq!(read_dir_path(s.next_step()), "srv/world/DIM-1/region");
    let found = s.dir_listed(vec![file("r.0.0.mca")]);
    assert_eq!(found, vec!["srv/world/DIM-1/region/r.0.0.mca"]);
    assert!(matches!(s.next_step(), ScanStep::Done));
    let names: Vec<String> = s.into_files().into_iter().map(|f| f.file_name).collect();
    assert_eq!(
        names,
        vec!["world/level.dat", "world/DIM-1/raids.dat", "world/DIM-1/region/r.0.0.mca"]
    );
}

#[test]
fn later_directories_are_listed_first() {
    let o = options(false, true, true, true);
    let mut s = Scanner::new(&o, vec!["w".to_string()]);
    assert!(s.root_found(true).is_ok());
    s.dir_listed(vec![dir("a"), dir("b"), DirEntryInfo { name: "l".to_string(), kind: EntryKind::Other }]);
    assert_eq!(read_dir_path(s.next_step()), "w/b");
    s.dir_listed(vec![]);
    assert_eq!(read_dir_path(s.next_step()), "w/a");
}

#[test]
fn roots_are_walked_in_order() {
    let o = options(true, true, true, false);
    let mut s = Scanner::new(&o, paths_to_be_archived(&o));
    assert!(s.root_found(true).is_ok());
    s.dir_listed(vec![file("level.dat")]);
    match s.next_step() {
        ScanStep::StatRoot(p) => assert_eq!(p, "srv/world_nether"),
        other => panic!("unexpected {:?}", other),
    }
    assert!(s.root_found(true).is_ok());
    s.dir_listed(vec![file("level.dat")]);
    let names: Vec<String> = s.into_files().into_iter().map(|f| f.file_name).collect();
    assert_eq!(names, vec!["world/level.dat", "world_nether/level.dat"]);
}

#[test]
fn inclusion_lines() {
    assert_eq!(inclusions_line(&options(false, true, true, true)), "Including Overworld, Nether, The End");
    assert_eq!(inclusions_line(&options(false, false, true, true)), "Including Nether, The End");
    assert_eq!(inclusions_line(&options(false, true, false, true)), "Including Overworld, The End");
    assert_eq!(inclusions_line(&options(false, false, false, false)), "Including ");
}
