//! What reading a directory answered, and the executables in it.
use vstd::prelude::*;

use crate::order::{self, sort};
use crate::snapshot::ContentRead;
use crate::text::{self, cat4, fail, push_line, Error, Text};

verus! {

/// The type of an entry itself, symbolic links not followed.
#[derive(Debug, Clone)]
pub enum TypeRead {
    File,
    Directory,
    Symlink,
    Other,
    Failed { cause: String },
}

/// What an entry leads to, symbolic links followed.
#[derive(Debug, Clone)]
pub enum ModeRead {
    File { mode: u32 },
    NotFile,
    Failed { cause: String },
}

#[derive(Debug, Clone)]
pub struct DirEntry {
    pub path: String,
    pub file_type: TypeRead,
    pub mode: ModeRead,
    pub text: ContentRead,
}

/// The answer for one entry of a directory.
#[derive(Debug, Clone)]
pub enum EntryRead {
    Entry { entry: DirEntry },
    Failed { cause: String },
}

/// The answer to reading a directory.
#[derive(Debug, Clone)]
pub enum DirRead {
    Listed { entries: Vec<EntryRead> },
    Failed { cause: String },
}

pub enum TypeView {
    File,
    Directory,
    Symlink,
    Other,
    Failed { cause: Text },
}

pub enum ModeView {
    File { mode: u32 },
    NotFile,
    Failed { cause: Text },
}

pub struct DirEntryView {
    pub path: Text,
    pub file_type: TypeView,
    pub mode: ModeView,
    pub text: Result<Text, Text>,
}

impl DeepView for TypeRead {
    type V = TypeView;

    open spec fn deep_view(&self) -> TypeView {
        match self {
            TypeRead::File => TypeView::File,
            TypeRead::Directory => TypeView::Directory,
            TypeRead::Symlink => TypeView::Symlink,
            TypeRead::Other => TypeView::Other,
            TypeRead::Failed { cause } => TypeView::Failed { cause: cause@ },
        }
    }
}

impl DeepView for ModeRead {
    type V = ModeView;

    open spec fn deep_view(&self) -> ModeView {
        match self {
            ModeRead::File { mode } => ModeView::File { mode: *mode },
            ModeRead::NotFile => ModeView::NotFile,
            ModeRead::Failed { cause } => ModeView::Failed { cause: cause@ },
        }
    }
}

impl DeepView for DirEntry {
    type V = DirEntryView;

    open spec fn deep_view(&self) -> DirEntryView {
        DirEntryView {
            path: self.path@,
            file_type: self.file_type.deep_view(),
            mode: self.mode.deep_view(),
            text: self.text.deep_view(),
        }
    }
}

impl DeepView for EntryRead {
    type V = Result<DirEntryView, Text>;

    open spec fn deep_view(&self) -> Result<DirEntryView, Text> {
        match self {
            EntryRead::Entry { entry } => Ok(entry.deep_view()),
            EntryRead::Failed { cause } => Err(cause@),
        }
    }
}

impl DeepView for DirRead {
    type V = Result<Seq<Result<DirEntryView, Text>>, Text>;

    open spec fn deep_view(&self) -> Result<Seq<Result<DirEntryView, Text>>, Text> {
        match self {
            DirRead::Listed { entries } => Ok(entries.deep_view()),
            DirRead::Failed { cause } => Err(cause@),
        }
    }
}

/// What a step that could not be done on `path` is told as.
pub open spec fn told(step: Text, path: Text, cause: Text) -> Text {
    step + path + ": "@ + cause
}

pub(crate) fn tell(step: &str, path: &str, cause: &str) -> (r: Error)
    ensures
        r@ == told(step@, path@, cause@),
{
    fail(cat4(step, path, ": ", cause))
}

/// Whether a directory entry is a file, or a link to one, that may be executed.
pub open spec fn runs(dir: Text, entry: Result<DirEntryView, Text>) -> Result<bool, Text> {
    match entry {
        Err(cause) => Err(told("failed to read entry in "@, dir, cause)),
        Ok(entry) => match entry.file_type {
            TypeView::Failed { cause } => Err(told("failed to inspect "@, entry.path, cause)),
            TypeView::Directory | TypeView::Other => Ok(false),
            TypeView::File | TypeView::Symlink => match entry.mode {
                ModeView::Failed { cause } => Err(told("failed to inspect "@, entry.path, cause)),
                ModeView::NotFile => Ok(false),
                ModeView::File { mode } => Ok(mode & 0o111 != 0),
            },
        },
    }
}

fn entry_runs(dir: &str, entry: &EntryRead) -> (r: Result<bool, Error>)
    ensures
        text::outcome(r) == runs(dir@, entry.deep_view()),
{
    match entry {
        EntryRead::Failed { cause } => Err(tell("failed to read entry in ", dir, cause.as_str())),
        EntryRead::Entry { entry } => match &entry.file_type {
            TypeRead::Failed { cause } => Err(
                tell("failed to inspect ", entry.path.as_str(), cause.as_str()),
            ),
            TypeRead::Directory | TypeRead::Other => Ok(false),
            TypeRead::File | TypeRead::Symlink => match &entry.mode {
                ModeRead::Failed { cause } => Err(
                    tell("failed to inspect ", entry.path.as_str(), cause.as_str()),
                ),
                ModeRead::NotFile => Ok(false),
                ModeRead::File { mode } => Ok(*mode & 0o111 != 0),
            },
        },
    }
}

/// The executables among the entries, or the first failure.
pub open spec fn executables(dir: Text, entries: Seq<Result<DirEntryView, Text>>) -> Result<
    Seq<Text>,
    Text,
>
    decreases entries.len(),
{
    if entries.len() == 0 {
        Ok(Seq::empty())
    } else {
        match executables(dir, entries.drop_last()) {
            Err(problem) => Err(problem),
            Ok(front) => match runs(dir, entries.last()) {
                Err(problem) => Err(problem),
                Ok(true) => Ok(front.push(entries.last()->Ok_0.path)),
                Ok(false) => Ok(front),
            },
        }
    }
}

/// What reading a directory for its executables gives, sorted by path.
pub open spec fn executables_in(
    dir: Text,
    read: Result<Seq<Result<DirEntryView, Text>>, Text>,
) -> Result<Seq<Text>, Text> {
    match read {
        Err(cause) => Err(told("failed to read "@, dir, cause)),
        Ok(entries) => match executables(dir, entries) {
            Err(problem) => Err(problem),
            Ok(found) => Ok(order::sorted::<String>(found)),
        },
    }
}

proof fn lemma_executables_stop(dir: Text, entries: Seq<Result<DirEntryView, Text>>, i: int)
    requires
        0 <= i <= entries.len(),
        executables(dir, entries.take(i)) is Err,
    ensures
        executables(dir, entries) == executables(dir, entries.take(i)),
    decreases entries.len(),
{
    if i < entries.len() {
        assert(entries.drop_last().take(i) =~= entries.take(i));
        lemma_executables_stop(dir, entries.drop_last(), i);
    } else {
        assert(entries.take(i) =~= entries);
    }
}

/// The files in a directory that may be executed.
pub fn executable_entries(bin_dir: &str, read: &DirRead) -> (r: Result<Vec<String>, Error>)
    ensures
        text::outcome(r) == executables_in(bin_dir@, read.deep_view()),
{
    let entries = match read {
        DirRead::Failed { cause } => {
            return Err(tell("failed to read ", bin_dir, cause.as_str()));
        },
        DirRead::Listed { entries } => entries,
    };
    let ghost all = entries.deep_view();
    let mut found: Vec<String> = Vec::new();
    let mut i: usize = 0;
    assert(found.deep_view() =~= Seq::empty());
    while i < entries.len()
        invariant
            i <= entries@.len(),
            all == entries.deep_view(),
            all.len() == entries@.len(),
            read.deep_view() == Ok::<Seq<Result<DirEntryView, Text>>, Text>(all),
            executables(bin_dir@, all.take(i as int)) == Ok::<Seq<Text>, Text>(found.deep_view()),
        decreases entries@.len() - i,
    {
        assert(all.take(i + 1).drop_last() =~= all.take(i as int));
        assert(all.take(i + 1).last() == entries@[i as int].deep_view());
        match entry_runs(bin_dir, &entries[i]) {
            Err(error) => {
                proof {
                    lemma_executables_stop(bin_dir@, all, i + 1);
                }
                return Err(error);
            },
            Ok(runs) => {
                if runs {
                    if let EntryRead::Entry { entry } = &entries[i] {
                        push_line(&mut found, entry.path.clone());
                    }
                }
            },
        }
        i += 1;
    }
    assert(all.take(all.len() as int) =~= all);
    Ok(sort(found))
}

} // verus!
