//! Progress events, and what the progress display does with each of them.
//! The display itself (terminal bars) is outside the library; this decides
//! what it shows.

use vstd::prelude::*;
use crate::text::{decimal, file_name_of, final_name, numbered, to_string_exact};
use crate::units::{bytes_text, format_bytes};

verus! {

/// The events a run reports, in a one-way stream.
#[derive(Debug, Clone)]
pub enum ProgressMessage {
    StartScanning,
    /// A file was found; its path.
    FileFound(String),
    /// Compression starts; the number of files.
    StartCompression(u64),
    /// A worker took up a file or unit; the worker and the label.
    Compressing(usize, String),
    /// A worker finished a file; the worker and the label.
    FileCompressed(usize, String),
    /// Writing starts; the number of units to write.
    StartWriting(u64),
    /// A unit is being written; its label.
    WritingFile(String),
    /// The archive is complete; its size in bytes.
    Complete(u64),
}

/// The last component of a label, or nothing when it has none.
pub open spec fn short_name_of(label: Seq<char>) -> Seq<char> {
    match final_name(label) {
        Some(n) => n,
        None => Seq::empty(),
    }
}

pub fn short_name(label: &str) -> (r: String)
    ensures
        r@ == short_name_of(label@),
{
    match file_name_of(label) {
        Some(n) => n,
        None => String::new(),
    }
}

/// What the display is to do for one event.
#[derive(Debug)]
pub enum DisplayUpdate {
    /// Show this on the scan line.
    ScanStatus(String),
    /// Close the scan line with this text and open a compression bar of
    /// `total` files.
    ScanDone { message: String, total: u64 },
    /// Add worker lines until there are `lines`, then show `message` on the
    /// line of `worker`.
    WorkerStatus { lines: usize, worker: usize, message: String },
    /// Move the compression bar to `position` if there is one, and show the
    /// worker as idle if it has a line.
    FileDone { position: Option<u64>, idle_worker: Option<usize> },
    /// Close the compression bar if there is one, clear the worker lines,
    /// and open a writing bar of `total` units.
    WritingStarted { close_compression: bool, total: u64 },
    /// Move the writing bar, if there is one, to `position` and show `message`.
    UnitWritten { position: Option<u64>, message: String },
    /// Close the writing bar, if there is one, with this text; stop listening.
    Finished { summary: Option<String> },
}

/// What the display knows between events.
pub struct ProgressBoard {
    pub worker_lines: usize,
    pub has_compression_bar: bool,
    pub has_write_bar: bool,
    /// Files reported compressed so far.
    pub compressed: u64,
    /// Units reported written so far.
    pub written: u64,
    pub finished: bool,
}

/// One more, without passing the largest value.
pub open spec fn bump(n: u64) -> u64 {
    if n < u64::MAX {
        (n + 1) as u64
    } else {
        n
    }
}

impl ProgressBoard {
    pub fn new() -> (r: ProgressBoard)
        ensures
            r.worker_lines == 0,
            !r.has_compression_bar,
            !r.has_write_bar,
            r.compressed == 0,
            r.written == 0,
            !r.finished,
    {
        ProgressBoard {
            worker_lines: 0,
            has_compression_bar: false,
            has_write_bar: false,
            compressed: 0,
            written: 0,
            finished: false,
        }
    }

    /// Takes in one event and says what to show for it.
    pub fn apply(&mut self, msg: ProgressMessage) -> (r: DisplayUpdate)
        ensures
            match msg {
                ProgressMessage::StartScanning => {
                    &&& r matches DisplayUpdate::ScanStatus(m) && m@ == "Scanning directories..."@
                    &&& *final(self) == *old(self)
                },
                ProgressMessage::FileFound(p) => {
                    &&& r matches DisplayUpdate::ScanStatus(m) && m@ == "Found: "@ + short_name_of(p@)
                    &&& *final(self) == *old(self)
                },
                ProgressMessage::StartCompression(total) => {
                    &&& r matches DisplayUpdate::ScanDone { message, total: t } && t == total
                        && message@ == "Found "@ + decimal(total as nat) + " files"@
                    &&& final(self).has_compression_bar
                    &&& final(self).compressed == old(self).compressed
                    &&& final(self).written == old(self).written
                },
                ProgressMessage::Compressing(w, label) => {
                    let lines = if w < old(self).worker_lines {
                        old(self).worker_lines as int
                    } else {
                        w + 1
                    };
                    &&& r matches DisplayUpdate::WorkerStatus { lines: l, worker, message }
                        && worker == w && message@ == short_name_of(label@)
                        && (w < usize::MAX ==> l == lines)
                        && (w == usize::MAX ==> l == old(self).worker_lines)
                    &&& w < usize::MAX ==> final(self).worker_lines == lines
                    &&& w == usize::MAX ==> final(self).worker_lines == old(self).worker_lines
                    &&& final(self).has_compression_bar == old(self).has_compression_bar
                    &&& final(self).has_write_bar == old(self).has_write_bar
                    &&& final(self).compressed == old(self).compressed
                    &&& final(self).written == old(self).written
                },
                ProgressMessage::FileCompressed(w, _) => {
                    &&& final(self).compressed == bump(old(self).compressed)
                    &&& final(self).written == old(self).written
                    &&& r matches DisplayUpdate::FileDone { position, idle_worker }
                        && (position is Some <==> old(self).has_compression_bar)
                        && (position matches Some(p) ==> p == final(self).compressed)
                        && (idle_worker is Some <==> w < old(self).worker_lines)
                        && (idle_worker matches Some(i) ==> i == w)
                },
                ProgressMessage::StartWriting(total) => {
                    &&& r matches DisplayUpdate::WritingStarted { close_compression, total: t }
                        && t == total && close_compression == old(self).has_compression_bar
                    &&& final(self).has_write_bar
                    &&& final(self).worker_lines == 0
                    &&& final(self).compressed == old(self).compressed
                    &&& final(self).written == old(self).written
                },
                ProgressMessage::WritingFile(label) => {
                    &&& final(self).written == bump(old(self).written)
                    &&& final(self).compressed == old(self).compressed
                    &&& r matches DisplayUpdate::UnitWritten { position, message }
                        && message@ == short_name_of(label@)
                        && (position is Some <==> old(self).has_write_bar)
                        && (position matches Some(p) ==> p == final(self).written)
                },
                ProgressMessage::Complete(size) => {
                    &&& final(self).finished
                    &&& final(self).compressed == old(self).compressed
                    &&& final(self).written == old(self).written
                    &&& r matches DisplayUpdate::Finished { summary }
                        && (summary is Some <==> old(self).has_write_bar)
                        && (summary matches Some(m) ==> m@ == "Archive created successfully! ("@
                            + bytes_text(size as nat) + ")"@)
                },
            },
    {
        match msg {
            ProgressMessage::StartScanning => {
                DisplayUpdate::ScanStatus(to_string_exact("Scanning directories..."))
            },
            ProgressMessage::FileFound(p) => {
                let mut m = to_string_exact("Found: ");
                let s = short_name(p.as_str());
                m.append(s.as_str());
                DisplayUpdate::ScanStatus(m)
            },
            ProgressMessage::StartCompression(total) => {
                self.has_compression_bar = true;
                DisplayUpdate::ScanDone { message: numbered("Found ", total as u128, " files"), total }
            },
            ProgressMessage::Compressing(w, label) => {
                if w < self.worker_lines {
                    DisplayUpdate::WorkerStatus {
                        lines: self.worker_lines,
                        worker: w,
                        message: short_name(label.as_str()),
                    }
                } else if w < usize::MAX {
                    self.worker_lines = w + 1;
                    DisplayUpdate::WorkerStatus {
                        lines: w + 1,
                        worker: w,
                        message: short_name(label.as_str()),
                    }
                } else {
                    DisplayUpdate::WorkerStatus {
                        lines: self.worker_lines,
                        worker: w,
                        message: short_name(label.as_str()),
                    }
                }
            },
            ProgressMessage::FileCompressed(w, _) => {
                if self.compressed < u64::MAX {
                    self.compressed = self.compressed + 1;
                }
                let position = if self.has_compression_bar {
                    Some(self.compressed)
                } else {
                    None
                };
                let idle_worker = if w < self.worker_lines {
                    Some(w)
                } else {
                    None
                };
                DisplayUpdate::FileDone { position, idle_worker }
            },
            ProgressMessage::StartWriting(total) => {
                let close_compression = self.has_compression_bar;
                self.worker_lines = 0;
                self.has_write_bar = true;
                DisplayUpdate::WritingStarted { close_compression, total }
            },
            ProgressMessage::WritingFile(label) => {
                if self.written < u64::MAX {
                    self.written = self.written + 1;
                }
                let position = if self.has_write_bar {
                    Some(self.written)
                } else {
                    None
                };
                DisplayUpdate::UnitWritten { position, message: short_name(label.as_str()) }
            },
            ProgressMessage::Complete(size) => {
                self.finished = true;
                let summary = if self.has_write_bar {
                    let mut m = to_string_exact("Archive created successfully! (");
                    let b = format_bytes(size);
                    m.append(b.as_str());
                    m.append(")");
                    Some(m)
                } else {
                    None
                };
                DisplayUpdate::Finished { summary }
            },
        }
    }
}

} // verus!
