//! The scan phase: an iterative depth-first walk of the roots, kept here as a
//! state machine. The caller performs each step it asks for (the status of a
//! root, the listing of a directory) and hands the answer back.

use vstd::prelude::*;
use crate::options::ArchiveOptions;
use crate::text::{file_name_of, final_name, join_path, path_join, str_eq, to_string_exact};

verus! {

/// One input file: where it is read from, and the slash-separated name it
/// gets inside the archive.
#[derive(Clone, Debug)]
pub struct FileToCompress {
    pub src_path: String,
    pub file_name: String,
}

pub struct FileView {
    pub src_path: Seq<char>,
    pub file_name: Seq<char>,
}

impl FileToCompress {
    /// A copy with the same two paths.
    pub fn duplicate(&self) -> (r: FileToCompress)
        ensures
            r@ == self@,
    {
        FileToCompress {
            src_path: to_string_exact(self.src_path.as_str()),
            file_name: to_string_exact(self.file_name.as_str()),
        }
    }
}

impl View for FileToCompress {
    type V = FileView;

    open spec fn view(&self) -> FileView {
        FileView { src_path: self.src_path@, file_name: self.file_name@ }
    }
}

/// The directory names that hold overworld data.
pub open spec fn is_overworld_data(name: Seq<char>) -> bool {
    name == "regions"@ || name == "entities"@ || name == "poi"@
}

/// The options that decide which directories the walk leaves out.
#[derive(Clone, Debug)]
pub struct PruneRules {
    pub is_bukkit: bool,
    pub include_overworld: bool,
    pub include_nether: bool,
    pub include_end: bool,
    pub world_name: String,
}

impl PruneRules {
    /// Whether the directory `name`, found inside a directory called
    /// `parent`, is left out. With one directory per dimension nothing is:
    /// the roots already select the dimensions.
    pub open spec fn skips(&self, parent: Seq<char>, name: Seq<char>) -> bool {
        !self.is_bukkit && ((!self.include_end && name == "DIM1"@) || (!self.include_nether && name
            == "DIM-1"@) || (!self.include_overworld && parent == self.world_name@
            && is_overworld_data(name)))
    }

    pub fn from_options(o: &ArchiveOptions) -> (r: PruneRules)
        ensures
            r.is_bukkit == o.is_bukkit,
            r.include_overworld == o.include_overworld,
            r.include_nether == o.include_nether,
            r.include_end == o.include_end,
            r.world_name@ == o.world_name@,
    {
        PruneRules {
            is_bukkit: o.is_bukkit,
            include_overworld: o.include_overworld,
            include_nether: o.include_nether,
            include_end: o.include_end,
            world_name: to_string_exact(o.world_name.as_str()),
        }
    }

    pub fn skips_dir(&self, parent: &str, name: &str) -> (r: bool)
        ensures
            r == self.skips(parent@, name@),
    {
        if self.is_bukkit {
            return false;
        }
        if !self.include_end && str_eq(name, "DIM1") {
            return true;
        }
        if !self.include_nether && str_eq(name, "DIM-1") {
            return true;
        }
        !self.include_overworld && str_eq(parent, self.world_name.as_str()) && (str_eq(
            name,
            "regions",
        ) || str_eq(name, "entities") || str_eq(name, "poi"))
    }
}

/// A directory still to be listed: its path on disk, its path inside the
/// archive, its own name, the name of the directory it was found in, and
/// whether it is one of the roots.
#[derive(Clone, Debug)]
pub struct DirTask {
    pub fs_path: String,
    pub archive_path: String,
    pub name: String,
    pub parent_name: String,
    pub is_root: bool,
}

pub struct DirTaskView {
    pub fs_path: Seq<char>,
    pub archive_path: Seq<char>,
    pub name: Seq<char>,
    pub parent_name: Seq<char>,
    pub is_root: bool,
}

impl View for DirTask {
    type V = DirTaskView;

    open spec fn view(&self) -> DirTaskView {
        DirTaskView {
            fs_path: self.fs_path@,
            archive_path: self.archive_path@,
            name: self.name@,
            parent_name: self.parent_name@,
            is_root: self.is_root,
        }
    }
}

/// What a directory entry is. Links are not followed: an entry that is
/// neither a directory nor a regular file is passed over.
#[derive(Clone, Copy, Debug, PartialEq, Eq, Structural)]
pub enum EntryKind {
    Dir,
    File,
    Other,
}

/// One entry of a directory listing.
#[derive(Clone, Debug)]
pub struct DirEntryInfo {
    pub name: String,
    pub kind: EntryKind,
}

pub struct EntryView {
    pub name: Seq<char>,
    pub kind: EntryKind,
}

impl View for DirEntryInfo {
    type V = EntryView;

    open spec fn view(&self) -> EntryView {
        EntryView { name: self.name@, kind: self.kind }
    }
}

pub open spec fn entries_view(entries: Seq<DirEntryInfo>) -> Seq<EntryView> {
    entries.map_values(|e: DirEntryInfo| e@)
}

/// The archive path of an entry of the directory `top`.
pub open spec fn child_archive_path(top: DirTaskView, e: EntryView) -> Seq<char> {
    top.archive_path + "/"@ + e.name
}

pub open spec fn child_task(top: DirTaskView, e: EntryView) -> DirTaskView {
    DirTaskView {
        fs_path: path_join(top.fs_path, e.name),
        archive_path: child_archive_path(top, e),
        name: e.name,
        parent_name: top.name,
        is_root: false,
    }
}

pub open spec fn child_file(top: DirTaskView, e: EntryView) -> FileView {
    FileView { src_path: path_join(top.fs_path, e.name), file_name: child_archive_path(top, e) }
}

/// The subdirectories of `top` that the walk goes into, in listing order.
pub open spec fn entered_dirs(
    rules: PruneRules,
    top: DirTaskView,
    entries: Seq<EntryView>,
) -> Seq<DirTaskView>
    decreases entries.len(),
{
    if entries.len() == 0 {
        Seq::empty()
    } else {
        let rest = entered_dirs(rules, top, entries.drop_last());
        let e = entries.last();
        if e.kind == EntryKind::Dir && !rules.skips(top.name, e.name) {
            rest.push(child_task(top, e))
        } else {
            rest
        }
    }
}

/// The regular files of `top`, in listing order.
pub open spec fn found_files(top: DirTaskView, entries: Seq<EntryView>) -> Seq<FileView>
    decreases entries.len(),
{
    if entries.len() == 0 {
        Seq::empty()
    } else {
        let rest = found_files(top, entries.drop_last());
        let e = entries.last();
        if e.kind == EntryKind::File {
            rest.push(child_file(top, e))
        } else {
            rest
        }
    }
}

pub open spec fn src_paths(files: Seq<FileView>) -> Seq<Seq<char>> {
    files.map_values(|f: FileView| f.src_path)
}

/// A directory that the rules leave out is never entered: with the
/// dimensions kept inside the world directory, `DIM1` is not entered when
/// the End is excluded, `DIM-1` not when the Nether is, and `regions`,
/// `entities` and `poi` of the world directory not when the overworld is.
pub proof fn lemma_pruned_dirs_never_entered(
    rules: PruneRules,
    top: DirTaskView,
    entries: Seq<EntryView>,
)
    requires
        !rules.is_bukkit,
    ensures
        forall|i: int|
            0 <= i < entered_dirs(rules, top, entries).len() ==> {
                let d = #[trigger] entered_dirs(rules, top, entries)[i];
                &&& !rules.include_end ==> d.name != "DIM1"@
                &&& !rules.include_nether ==> d.name != "DIM-1"@
                &&& (!rules.include_overworld && top.name == rules.world_name@)
                    ==> !is_overworld_data(d.name)
            },
    decreases entries.len(),
{
    if entries.len() > 0 {
        let rest = entered_dirs(rules, top, entries.drop_last());
        lemma_pruned_dirs_never_entered(rules, top, entries.drop_last());
        let e = entries.last();
        if e.kind == EntryKind::Dir && !rules.skips(top.name, e.name) {
            let all = rest.push(child_task(top, e));
            assert forall|i: int| 0 <= i < all.len() implies {
                let d = #[trigger] all[i];
                &&& !rules.include_end ==> d.name != "DIM1"@
                &&& !rules.include_nether ==> d.name != "DIM-1"@
                &&& (!rules.include_overworld && top.name == rules.world_name@)
                    ==> !is_overworld_data(d.name)
            } by {
                if i < rest.len() {
                    assert(all[i] == rest[i]);
                }
            }
        }
    }
}

/// What the walk asks for next.
#[derive(Debug)]
pub enum ScanStep {
    /// Whether this root is a directory or a file.
    StatRoot(String),
    /// The entries of this directory.
    ReadDir(String),
    /// Nothing: the scan is complete.
    Done,
}

#[derive(Debug)]
pub enum ScanError {
    /// A root path with no final name to give its files in the archive.
    InvalidPath(String),
    /// A root that is not a directory.
    NotADirectory(String),
}

/// Every queued directory is a root or one that the rules do not skip.
pub open spec fn queued_ok(rules: PruneRules, pending: Seq<DirTaskView>) -> bool {
    forall|i: int|
        0 <= i < pending.len() ==> (#[trigger] pending[i]).is_root || !rules.skips(
            pending[i].parent_name,
            pending[i].name,
        )
}

/// The walk over a list of roots. Roots are taken in order, each walked to
/// the end before the next; within a root, directories are kept on a stack.
pub struct Scanner {
    rules: PruneRules,
    roots: Vec<String>,
    next_root: usize,
    stack: Vec<DirTask>,
    files: Vec<FileToCompress>,
}

impl Scanner {
    pub closed spec fn rules(&self) -> PruneRules {
        self.rules
    }

    pub closed spec fn roots(&self) -> Seq<Seq<char>> {
        self.roots@.map_values(|p: String| p@)
    }

    /// How many roots have been taken up.
    pub closed spec fn next_root(&self) -> nat {
        self.next_root as nat
    }

    /// The directories still to be listed; the last one is listed next.
    pub closed spec fn pending(&self) -> Seq<DirTaskView> {
        self.stack@.map_values(|t: DirTask| t@)
    }

    /// The files found so far, in the order they were found.
    pub closed spec fn found(&self) -> Seq<FileView> {
        self.files@.map_values(|f: FileToCompress| f@)
    }

    pub closed spec fn wf(&self) -> bool {
        &&& self.next_root <= self.roots@.len()
        &&& queued_ok(self.rules, self.pending())
    }

    pub fn new(options: &ArchiveOptions, roots: Vec<String>) -> (r: Scanner)
        ensures
            r.wf(),
            r.rules().is_bukkit == options.is_bukkit,
            r.rules().include_overworld == options.include_overworld,
            r.rules().include_nether == options.include_nether,
            r.rules().include_end == options.include_end,
            r.rules().world_name@ == options.world_name@,
            r.roots() == roots@.map_values(|p: String| p@),
            r.next_root() == 0,
            r.pending() == Seq::<DirTaskView>::empty(),
            r.found() == Seq::<FileView>::empty(),
    {
        let r = Scanner {
            rules: PruneRules::from_options(options),
            roots,
            next_root: 0,
            stack: Vec::new(),
            files: Vec::new(),
        };
        assert(r.pending() =~= Seq::<DirTaskView>::empty());
        assert(r.found() =~= Seq::<FileView>::empty());
        r
    }

    pub fn next_step(&self) -> (r: ScanStep)
        requires
            self.wf(),
        ensures
            self.pending().len() > 0 ==> (r matches ScanStep::ReadDir(p) && p@
                == self.pending().last().fs_path),
            self.pending().len() == 0 && self.next_root() < self.roots().len() ==> (r matches ScanStep::StatRoot(p)
                && p@ == self.roots()[self.next_root() as int]),
            self.pending().len() == 0 && self.next_root() == self.roots().len() ==> r is Done,
    {
        let n = self.stack.len();
        if n > 0 {
            ScanStep::ReadDir(to_string_exact(self.stack[n - 1].fs_path.as_str()))
        } else if self.next_root < self.roots.len() {
            ScanStep::StatRoot(to_string_exact(self.roots[self.next_root].as_str()))
        } else {
            ScanStep::Done
        }
    }

    /// Takes up the next root, which must be a directory (`is_dir`): it is
    /// queued to be listed, its files to be named under the root's final
    /// name. A root with no final name, or one that is not a directory, is
    /// refused and the walk left as it was.
    pub fn root_found(&mut self, is_dir: bool) -> (r: Result<(), ScanError>)
        requires
            old(self).wf(),
            old(self).pending().len() == 0,
            old(self).next_root() < old(self).roots().len(),
        ensures
            final(self).wf(),
            final(self).rules() == old(self).rules(),
            final(self).roots() == old(self).roots(),
            ({
                let p = old(self).roots()[old(self).next_root() as int];
                match final_name(p) {
                    None => {
                        &&& r matches Err(ScanError::InvalidPath(q)) && q@ == p
                        &&& *final(self) == *old(self)
                    },
                    Some(name) => {
                        &&& !is_dir ==> {
                            &&& r matches Err(ScanError::NotADirectory(q)) && q@ == p
                            &&& *final(self) == *old(self)
                        }
                        &&& is_dir ==> {
                            &&& r is Ok
                            &&& final(self).next_root() == old(self).next_root() + 1
                            &&& final(self).pending() == seq![
                                DirTaskView {
                                    fs_path: p,
                                    archive_path: name,
                                    name: name,
                                    parent_name: Seq::empty(),
                                    is_root: true,
                                },
                            ]
                            &&& final(self).found() == old(self).found()
                        }
                    },
                }
            }),
    {
        let _n = self.roots.len();
        assert(self.roots().len() == self.roots@.len());
        let path = to_string_exact(self.roots[self.next_root].as_str());
        match file_name_of(path.as_str()) {
            None => Err(ScanError::InvalidPath(path)),
            Some(name) => {
                if !is_dir {
                    return Err(ScanError::NotADirectory(path));
                }
                self.next_root = self.next_root + 1;
                let task = DirTask {
                    fs_path: path,
                    archive_path: to_string_exact(name.as_str()),
                    name,
                    parent_name: String::new(),
                    is_root: true,
                };
                self.stack.push(task);
                assert(self.pending() =~= seq![task@]);
                Ok(())
            },
        }
    }

    /// Takes in the listing of the directory that `next_step` asked for:
    /// its regular files are recorded (and their paths returned), and the
    /// subdirectories that the rules do not skip are queued.
    pub fn dir_listed(&mut self, entries: Vec<DirEntryInfo>) -> (r: Vec<String>)
        requires
            old(self).wf(),
            old(self).pending().len() > 0,
        ensures
            final(self).wf(),
            final(self).rules() == old(self).rules(),
            final(self).roots() == old(self).roots(),
            final(self).next_root() == old(self).next_root(),
            ({
                let top = old(self).pending().last();
                let ev = entries_view(entries@);
                &&& final(self).pending() == old(self).pending().drop_last() + entered_dirs(
                    old(self).rules(),
                    top,
                    ev,
                )
                &&& final(self).found() == old(self).found() + found_files(top, ev)
                &&& r@.map_values(|p: String| p@) == src_paths(found_files(top, ev))
            }),
    {
        let ghost old_pending = self.pending();
        let ghost old_found = self.found();
        let ghost ev = entries_view(entries@);
        let top = self.stack.pop().unwrap();
        assert(self.pending() =~= old_pending.drop_last());
        assert forall|k: int| 0 <= k < self.pending().len() implies (#[trigger] self.pending()[k]).is_root
            || !self.rules.skips(self.pending()[k].parent_name, self.pending()[k].name) by {
            assert(self.pending()[k] == old_pending[k]);
        }
        let mut out: Vec<String> = Vec::new();
        let mut i: usize = 0;
        assert(ev.subrange(0, 0) =~= Seq::<EntryView>::empty());
        assert(self.pending() =~= old_pending.drop_last() + Seq::<DirTaskView>::empty());
        assert(self.found() =~= old_found + Seq::<FileView>::empty());
        assert(out@.map_values(|p: String| p@) =~= Seq::<Seq<char>>::empty());
        while i < entries.len()
            invariant
                self.wf(),
                self.rules == old(self).rules,
                self.roots == old(self).roots,
                self.next_root == old(self).next_root,
                top@ == old_pending.last(),
                ev == entries_view(entries@),
                ev.len() == entries@.len(),
                i <= entries@.len(),
                self.pending() == old_pending.drop_last() + entered_dirs(
                    self.rules,
                    top@,
                    ev.subrange(0, i as int),
                ),
                self.found() == old_found + found_files(top@, ev.subrange(0, i as int)),
                out@.map_values(|p: String| p@) == src_paths(
                    found_files(top@, ev.subrange(0, i as int)),
                ),
            decreases entries@.len() - i,
        {
            let e = &entries[i];
            let ghost prev = ev.subrange(0, i as int);
            assert(ev.subrange(0, i + 1).drop_last() =~= prev);
            assert(ev.subrange(0, i + 1).last() == e@);
            if e.kind == EntryKind::Dir {
                if !self.rules.skips_dir(top.name.as_str(), e.name.as_str()) {
                    let mut archive_path = to_string_exact(top.archive_path.as_str());
                    archive_path.append("/");
                    archive_path.append(e.name.as_str());
                    let task = DirTask {
                        fs_path: join_path(top.fs_path.as_str(), e.name.as_str()),
                        archive_path,
                        name: to_string_exact(e.name.as_str()),
                        parent_name: to_string_exact(top.name.as_str()),
                        is_root: false,
                    };
                    let ghost before = self.pending();
                    self.stack.push(task);
                    assert(self.pending() =~= before.push(task@));
                    assert forall|k: int| 0 <= k < self.pending().len() implies (#[trigger] self.pending()[k]).is_root
                        || !self.rules.skips(self.pending()[k].parent_name, self.pending()[k].name) by {
                        if k < before.len() {
                            assert(self.pending()[k] == before[k]);
                        }
                    }
                }
            } else if e.kind == EntryKind::File {
                let mut archive_path = to_string_exact(top.archive_path.as_str());
                archive_path.append("/");
                archive_path.append(e.name.as_str());
                let src = join_path(top.fs_path.as_str(), e.name.as_str());
                let file = FileToCompress {
                    src_path: to_string_exact(src.as_str()),
                    file_name: archive_path,
                };
                let ghost before = self.found();
                let ghost before_out = out@.map_values(|p: String| p@);
                self.files.push(file);
                out.push(src);
                assert(self.found() =~= before.push(file@));
                assert(out@.map_values(|p: String| p@) =~= before_out.push(file@.src_path));
                assert(src_paths(found_files(top@, ev.subrange(0, i + 1))) =~= src_paths(
                    found_files(top@, prev),
                ).push(file@.src_path));
            }
            i = i + 1;
        }
        assert(ev.subrange(0, entries@.len() as int) =~= ev);
        out
    }

    /// The files found, in the order they were found.
    pub fn into_files(self) -> (r: Vec<FileToCompress>)
        ensures
            r@.map_values(|f: FileToCompress| f@) == self.found(),
    {
        self.files
    }
}

/// Throughout the walk, no directory that the rules leave out is ever
/// queued, so none is ever listed (`next_step` lists only queued
/// directories) and nothing below it is found: with the dimensions kept
/// inside the world directory, `DIM1` is not entered when the End is
/// excluded, `DIM-1` not when the Nether is, and `regions`, `entities` and
/// `poi` of the world directory not when the overworld is.
pub proof fn lemma_walk_never_enters_pruned(s: &Scanner)
    requires
        s.wf(),
        !s.rules().is_bukkit,
    ensures
        forall|i: int|
            0 <= i < s.pending().len() && !s.pending()[i].is_root ==> {
                let d = #[trigger] s.pending()[i];
                let rules = s.rules();
                &&& !rules.include_end ==> d.name != "DIM1"@
                &&& !rules.include_nether ==> d.name != "DIM-1"@
                &&& (!rules.include_overworld && d.parent_name == rules.world_name@)
                    ==> !is_overworld_data(d.name)
            },
{
    assert(queued_ok(s.rules, s.pending()));
}

} // verus!
