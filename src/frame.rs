//! Zstandard frames: the tar end-of-archive trailer, and the choice between
//! one stream and many frames.

use vstd::prelude::*;
use crate::assemble::TAR_BLOCK_SIZE;

verus! {

/// The one Zstandard frame that the codec makes of `data` at `level`.
pub uninterp spec fn zstd_frame_of(data: Seq<u8>, level: i32) -> Seq<u8>;

/// Relies on `zstd::stream::encode_all`: it runs one encoder over all of
/// `data` into a `Vec` and finishes it, so what it returns is a single
/// complete frame, made from the data and the level alone. It succeeds: the
/// codec clamps an out-of-range level, writing into a `Vec` cannot fail, and
/// only running out of memory is left.
#[verifier::external_body]
fn zstd_frame(data: &[u8], level: i32) -> (r: Option<Vec<u8>>)
    ensures
        r is Some,
        r matches Some(f) ==> f@ == zstd_frame_of(data@, level),
{
    zstd::stream::encode_all(data, level).ok()
}

/// Length of the tar end-of-archive marker: two zero blocks.
pub const TAR_END_LEN: usize = 1024;

/// The plaintext of the trailer frame.
pub open spec fn tar_end_marker() -> Seq<u8> {
    Seq::new(TAR_END_LEN as nat, |i: int| 0u8)
}

/// The frame appended after all batch frames, so that the concatenated
/// stream ends as a tar archive must: two zero blocks.
pub fn tar_end_frame(level: i8) -> (r: Vec<u8>)
    ensures
        tar_end_marker().len() == 2 * TAR_BLOCK_SIZE,
        r@ == zstd_frame_of(tar_end_marker(), level as i32),
{
    let mut zeros: Vec<u8> = Vec::new();
    let mut i: usize = 0;
    while i < TAR_END_LEN
        invariant
            i <= TAR_END_LEN,
            zeros@ == Seq::new(i as nat, |k: int| 0u8),
        decreases TAR_END_LEN - i,
    {
        zeros.push(0u8);
        i = i + 1;
        assert(zeros@ =~= Seq::new(i as nat, |k: int| 0u8));
    }
    match zstd_frame(zeros.as_slice(), level as i32) {
        Some(f) => f,
        None => {
            proof {
                assert(false);
            }
            Vec::new()
        },
    }
}

/// How a tar+Zstandard archive is made.
#[derive(Clone, Copy, Debug, PartialEq, Eq, Structural)]
pub enum ZstdMode {
    /// One encoder over the whole tar stream: the best ratio, one thread.
    Sequential,
    /// Batches compressed in parallel into frames that are concatenated.
    Parallel,
}

pub fn zstd_mode(threads: usize) -> (r: ZstdMode)
    ensures
        (r == ZstdMode::Sequential) == (threads == 1),
{
    if threads == 1 {
        ZstdMode::Sequential
    } else {
        ZstdMode::Parallel
    }
}

} // verus!
