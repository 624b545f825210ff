use mwdh::batch::{batch_threshold, make_batches, plan_batches, total_size, BatchToCompress};
use mwdh::frame::{zstd_mode, ZstdMode};
use mwdh::memory::writes_direct_to_disk;
use mwdh::units::MIB;
use mwdh::FileToCompress;

fn entry(name: &str, size: u64) -> (FileToCompress, u64) {
    (FileToCompress { src_path: format!("in/{}", name), file_name: name.to_string() }, size)
}

fn names(b: &BatchToCompress) -> Vec<String> {
    b.files.iter().map(|f| f.file_name.clone()).collect()
}

#[test]
fn threshold_of_nothing_is_one() {
    assert_eq!(batch_threshold(0, 4), 1);
}

#[test]
fn threshold_never_exceeds_total() {
    assert_eq!(batch_threshold(8 * MIB, 2), 8 * MIB);
    assert_eq!(batch_threshold(100 * MIB, 8), 64 * MIB);
}

#[test]
fn threshold_shares_out_between_bounds() {
    assert_eq!(batch_threshold(1024 * MIB, 4), 256 * MIB);
    assert_eq!(batch_threshold(8192 * MIB, 2), 512 * MIB);
    assert_eq!(batch_threshold(u64::MAX, 1), 512 * MIB);
}

#[test]
fn threshold_with_zero_threads_uses_one() {
    assert_eq!(batch_threshold(300 * MIB, 0), 300 * MIB);
}

#[test]
fn greedy_split() {
    let files = vec![entry("a", 3), entry("b", 4), entry("c", 2), entry("d", 5), entry("e", 1)];
    let batches = make_batches(files, 6);
    assert_eq!(batches.len(), 3);
    assert_eq!(names(&batches[0]), vec!["a", "b"]);
    assert_eq!(batches[0].total_size, 7);
    assert_eq!(names(&batches[1]), vec!["c", "d"]);
    assert_eq!(batches[1].total_size, 7);
    assert_eq!(names(&batches[2]), vec!["e"]);
    assert_eq!(batches[2].total_size, 1);
}

#[test]
fn split_closes_exactly_at_threshold() {
    let batches = make_batches(vec![entry("a", 6), entry("b", 6)], 6);
    assert_eq!(batches.len(), 2);
    assert_eq!(names(&batches[0]), vec!["a"]);
    assert_eq!(names(&batches[1]), vec!["b"]);
}

#[test]
fn split_of_nothing_is_empty() {
    assert!(make_batches(vec![], 1).is_empty());
    assert_eq!(plan_batches(vec![], 4).map(|b| b.len()), Some(0));
}

#[test]
fn batches_keep_every_file_once_in_order() {
    let files: Vec<(FileToCompress, u64)> =
        (0..20).map(|i| entry(&format!("f{}", i), (i * 7 % 5) as u64)).collect();
    let batches = make_batches(files, 4);
    let all: Vec<String> = batches.iter().flat_map(|b| names(b)).collect();
    let expected: Vec<String> = (0..20).map(|i| format!("f{}", i)).collect();
    assert_eq!(all, expected);
    assert!(batches.iter().all(|b| !b.files.is_empty()));
}

#[test]
fn totals_that_overflow_are_refused() {
    let files = vec![entry("a", u64::MAX), entry("b", 1)];
    assert_eq!(total_size(&files), None);
    assert!(plan_batches(files, 2).is_none());
    assert_eq!(total_size(&vec![entry("a", 5), entry("b", 6)]), Some(11));
}

// Three small files, four threads: the threshold is their total, so they
// form one batch.
#[test]
fn three_files_four_threads() {
    let plan = plan_batches(vec![entry("a", 10), entry("b", 20), entry("c", 30)], 4).unwrap();
    assert_eq!(plan.len(), 1);
    assert_eq!(names(&plan[0]), vec!["a", "b", "c"]);
    assert_eq!(plan[0].total_size, 60);
    // With a limit of 0 MiB every batch goes to disk.
    assert!(writes_direct_to_disk(plan[0].total_size, 0));
}

// Two files of 4 MiB, two threads, a limit of 1 MiB: every batch is over
// the limit and goes straight to disk.
#[test]
fn two_large_files_go_to_disk() {
    let plan = plan_batches(vec![entry("a", 4 * MIB), entry("b", 4 * MIB)], 2).unwrap();
    let covered: u64 = plan.iter().map(|b| b.total_size).sum();
    assert_eq!(covered, 8 * MIB);
    assert!(plan.iter().all(|b| writes_direct_to_disk(b.total_size, MIB)));
}

#[test]
fn one_thread_is_sequential() {
    assert_eq!(zstd_mode(1), ZstdMode::Sequential);
    assert_eq!(zstd_mode(2), ZstdMode::Parallel);
    assert_eq!(zstd_mode(0), ZstdMode::Parallel);
}
