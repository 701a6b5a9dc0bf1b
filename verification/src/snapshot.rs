//! What the file system answered about the paths that a decision reads.
use vstd::prelude::*;

use crate::text::{cat3, cat4, fail, same, Error, Text};

verus! {

/// What stands at a path itself, without following a symbolic link.
#[derive(Debug, Clone)]
pub enum EntryKind {
    Absent,
    Directory,
    Symlink,
    Other,
    /// The path could not be inspected.
    Unknown { problem: String },
}

/// What a path leads to, symbolic links followed.
#[derive(Debug, Clone, Copy, PartialEq, Eq, Structural)]
pub enum TargetKind {
    Missing,
    File,
    Directory,
    Other,
}

/// The answer to reading a symbolic link.
#[derive(Debug, Clone)]
pub enum LinkRead {
    Target { path: String },
    Absent,
    Failed { problem: String },
}

/// The answer to reading the contents of a file.
#[derive(Debug, Clone)]
pub enum ContentRead {
    Read { text: String },
    Failed { problem: String },
}

/// The answer to hashing the contents of a file.
#[derive(Debug, Clone)]
pub enum DigestRead {
    Digest { hex: String },
    NotOpened { problem: String },
    NotRead { problem: String },
}

#[derive(Debug, Clone)]
pub struct PathFacts {
    pub path: String,
    pub entry: EntryKind,
    pub target: TargetKind,
    pub link: LinkRead,
    pub text: ContentRead,
    pub digest: DigestRead,
}

/// The facts gathered before a decision; a path that is not listed is absent.
#[derive(Debug, Clone)]
pub struct Snapshot {
    pub facts: Vec<PathFacts>,
}

pub enum EntryView {
    Absent,
    Directory,
    Symlink,
    Other,
    Unknown { problem: Text },
}

pub enum LinkReadView {
    Target { path: Text },
    Absent,
    Failed { problem: Text },
}

pub enum DigestView {
    Digest { hex: Text },
    NotOpened { problem: Text },
    NotRead { problem: Text },
}

pub struct FactsView {
    pub path: Text,
    pub entry: EntryView,
    pub target: TargetKind,
    pub link: LinkReadView,
    pub text: Result<Text, Text>,
    pub digest: DigestView,
}

impl DeepView for EntryKind {
    type V = EntryView;

    open spec fn deep_view(&self) -> EntryView {
        match self {
            EntryKind::Absent => EntryView::Absent,
            EntryKind::Directory => EntryView::Directory,
            EntryKind::Symlink => EntryView::Symlink,
            EntryKind::Other => EntryView::Other,
            EntryKind::Unknown { problem } => EntryView::Unknown { problem: problem@ },
        }
    }
}

impl DeepView for LinkRead {
    type V = LinkReadView;

    open spec fn deep_view(&self) -> LinkReadView {
        match self {
            LinkRead::Target { path } => LinkReadView::Target { path: path@ },
            LinkRead::Absent => LinkReadView::Absent,
            LinkRead::Failed { problem } => LinkReadView::Failed { problem: problem@ },
        }
    }
}

impl DeepView for ContentRead {
    type V = Result<Text, Text>;

    open spec fn deep_view(&self) -> Result<Text, Text> {
        match self {
            ContentRead::Read { text } => Ok(text@),
            ContentRead::Failed { problem } => Err(problem@),
        }
    }
}

impl DeepView for DigestRead {
    type V = DigestView;

    open spec fn deep_view(&self) -> DigestView {
        match self {
            DigestRead::Digest { hex } => DigestView::Digest { hex: hex@ },
            DigestRead::NotOpened { problem } => DigestView::NotOpened { problem: problem@ },
            DigestRead::NotRead { problem } => DigestView::NotRead { problem: problem@ },
        }
    }
}

impl DeepView for PathFacts {
    type V = FactsView;

    open spec fn deep_view(&self) -> FactsView {
        FactsView {
            path: self.path@,
            entry: self.entry.deep_view(),
            target: self.target,
            link: self.link.deep_view(),
            text: self.text.deep_view(),
            digest: self.digest.deep_view(),
        }
    }
}

impl DeepView for Snapshot {
    type V = Seq<FactsView>;

    open spec fn deep_view(&self) -> Seq<FactsView> {
        self.facts.deep_view()
    }
}

/// What is said of a path that nothing stands at.
pub open spec fn absent_facts(path: Text) -> FactsView {
    FactsView {
        path,
        entry: EntryView::Absent,
        target: TargetKind::Missing,
        link: LinkReadView::Absent,
        text: Err("No such file or directory (os error 2)"@),
        digest: DigestView::NotOpened { problem: "No such file or directory (os error 2)"@ },
    }
}

/// The first facts listed for a path.
pub open spec fn facts_at(facts: Seq<FactsView>, path: Text) -> FactsView
    decreases facts.len(),
{
    if facts.len() == 0 {
        absent_facts(path)
    } else if facts[0].path == path {
        facts[0]
    } else {
        facts_at(facts.drop_first(), path)
    }
}

/// Whether two snapshots tell the same of each of the paths.
pub open spec fn told_alike(a: Snapshot, b: Snapshot, places: Seq<Text>) -> bool {
    forall|path: Text| #[trigger] places.contains(path) ==> a.at(path) == b.at(path)
}

impl Snapshot {
    /// What this snapshot says of a path.
    pub open spec fn at(self, path: Text) -> FactsView {
        facts_at(self.deep_view(), path)
    }

    pub open spec fn has(self, path: Text) -> bool {
        self.at(path).target != TargetKind::Missing
    }

    pub open spec fn has_file(self, path: Text) -> bool {
        self.at(path).target == TargetKind::File
    }

    pub open spec fn has_dir(self, path: Text) -> bool {
        self.at(path).target == TargetKind::Directory
    }

    /// Whether an entry stands at the path itself.
    pub open spec fn has_entry(self, path: Text) -> Result<bool, Text> {
        match self.at(path).entry {
            EntryView::Absent => Ok(false),
            EntryView::Unknown { problem } => Err(
                "failed to inspect "@ + path + ": "@ + problem,
            ),
            _ => Ok(true),
        }
    }

    /// Whether the entry at the path itself is a directory.
    pub open spec fn has_plain_dir(self, path: Text) -> Result<bool, Text> {
        match self.at(path).entry {
            EntryView::Absent => Err(
                "failed to inspect "@ + path + ": "@ + "No such file or directory (os error 2)"@,
            ),
            EntryView::Unknown { problem } => Err(
                "failed to inspect "@ + path + ": "@ + problem,
            ),
            EntryView::Directory => Ok(true),
            _ => Ok(false),
        }
    }

    /// The digest of what the path leads to; on failure, what could not be done.
    pub open spec fn digest_or_step(self, path: Text) -> Result<Text, Text> {
        match self.at(path).digest {
            DigestView::Digest { hex } => Ok(hex),
            DigestView::NotOpened { problem } => Err("failed to open "@ + path + " for hashing"@),
            DigestView::NotRead { problem } => Err("failed to read "@ + path + " for hashing"@),
        }
    }

    /// The digest of what the path leads to; on failure, what could not be done and why.
    pub open spec fn digest_or_cause(self, path: Text) -> Result<Text, Text> {
        match self.at(path).digest {
            DigestView::Digest { hex } => Ok(hex),
            DigestView::NotOpened { problem } => Err(
                "failed to open "@ + path + " for hashing: "@ + problem,
            ),
            DigestView::NotRead { problem } => Err(
                "failed to read "@ + path + " for hashing: "@ + problem,
            ),
        }
    }

    pub(crate) fn look(&self, path: &str) -> (r: Option<&PathFacts>)
        ensures
            match r {
                Some(facts) => facts.deep_view() == self.at(path@),
                None => self.at(path@) == absent_facts(path@),
            },
    {
        let ghost all = self.deep_view();
        let mut i: usize = 0;
        assert(all.skip(0) =~= all);
        while i < self.facts.len()
            invariant
                i <= self.facts@.len(),
                all == self.deep_view(),
                all.len() == self.facts@.len(),
                self.at(path@) == facts_at(all.skip(i as int), path@),
            decreases self.facts@.len() - i,
        {
            assert(all.skip(i as int)[0] == self.facts@[i as int].deep_view());
            if same(self.facts[i].path.as_str(), path) {
                return Some(&self.facts[i]);
            }
            assert(all.skip(i as int).drop_first() =~= all.skip(i + 1));
            i += 1;
        }
        None
    }

    pub(crate) fn target(&self, path: &str) -> (r: TargetKind)
        ensures
            r == self.at(path@).target,
    {
        match self.look(path) {
            Some(facts) => facts.target,
            None => TargetKind::Missing,
        }
    }

    pub(crate) fn is_present(&self, path: &str) -> (r: bool)
        ensures
            r == self.has(path@),
    {
        self.target(path) != TargetKind::Missing
    }

    pub(crate) fn is_file(&self, path: &str) -> (r: bool)
        ensures
            r == self.has_file(path@),
    {
        self.target(path) == TargetKind::File
    }

    pub(crate) fn is_dir(&self, path: &str) -> (r: bool)
        ensures
            r == self.has_dir(path@),
    {
        self.target(path) == TargetKind::Directory
    }

    pub(crate) fn link_exists(&self, path: &str) -> (r: Result<bool, Error>)
        ensures
            crate::text::outcome(r) == self.has_entry(path@),
    {
        match self.look(path) {
            None => Ok(false),
            Some(facts) => match &facts.entry {
                EntryKind::Absent => Ok(false),
                EntryKind::Unknown { problem } => Err(
                    fail(cat4("failed to inspect ", path, ": ", problem.as_str())),
                ),
                _ => Ok(true),
            },
        }
    }

    pub(crate) fn is_plain_directory(&self, path: &str) -> (r: Result<bool, Error>)
        ensures
            crate::text::outcome(r) == self.has_plain_dir(path@),
    {
        let absent = "No such file or directory (os error 2)";
        match self.look(path) {
            None => Err(fail(cat4("failed to inspect ", path, ": ", absent))),
            Some(facts) => match &facts.entry {
                EntryKind::Absent => Err(fail(cat4("failed to inspect ", path, ": ", absent))),
                EntryKind::Unknown { problem } => Err(
                    fail(cat4("failed to inspect ", path, ": ", problem.as_str())),
                ),
                EntryKind::Directory => Ok(true),
                _ => Ok(false),
            },
        }
    }

    pub(crate) fn read_link(&self, path: &str) -> (r: LinkRead)
        ensures
            r.deep_view() == self.at(path@).link,
    {
        match self.look(path) {
            None => LinkRead::Absent,
            Some(facts) => match &facts.link {
                LinkRead::Target { path } => LinkRead::Target { path: path.clone() },
                LinkRead::Absent => LinkRead::Absent,
                LinkRead::Failed { problem } => LinkRead::Failed { problem: problem.clone() },
            },
        }
    }

    pub(crate) fn read_text(&self, path: &str) -> (r: ContentRead)
        ensures
            r.deep_view() == self.at(path@).text,
    {
        match self.look(path) {
            None => no_content(),
            Some(facts) => copy_content(&facts.text),
        }
    }

    pub(crate) fn hash_step(&self, path: &str) -> (r: Result<String, Error>)
        ensures
            crate::text::outcome(r) == self.digest_or_step(path@),
    {
        match self.look(path) {
            None => Err(fail(cat3("failed to open ", path, " for hashing"))),
            Some(facts) => match &facts.digest {
                DigestRead::Digest { hex } => Ok(hex.clone()),
                DigestRead::NotOpened { .. } => Err(
                    fail(cat3("failed to open ", path, " for hashing")),
                ),
                DigestRead::NotRead { .. } => Err(
                    fail(cat3("failed to read ", path, " for hashing")),
                ),
            },
        }
    }

    pub(crate) fn hash_cause(&self, path: &str) -> (r: Result<String, Error>)
        ensures
            crate::text::outcome(r) == self.digest_or_cause(path@),
    {
        let absent = "No such file or directory (os error 2)";
        match self.look(path) {
            None => Err(fail(cat4("failed to open ", path, " for hashing: ", absent))),
            Some(facts) => match &facts.digest {
                DigestRead::Digest { hex } => Ok(hex.clone()),
                DigestRead::NotOpened { problem } => Err(
                    fail(cat4("failed to open ", path, " for hashing: ", problem.as_str())),
                ),
                DigestRead::NotRead { problem } => Err(
                    fail(cat4("failed to read ", path, " for hashing: ", problem.as_str())),
                ),
            },
        }
    }
}

fn no_content() -> (r: ContentRead)
    ensures
        r.deep_view() == Err::<Text, Text>("No such file or directory (os error 2)"@),
{
    ContentRead::Failed { problem: "No such file or directory (os error 2)".to_owned() }
}

fn copy_content(content: &ContentRead) -> (r: ContentRead)
    ensures
        r.deep_view() == content.deep_view(),
{
    match content {
        ContentRead::Read { text } => ContentRead::Read { text: text.clone() },
        ContentRead::Failed { problem } => ContentRead::Failed { problem: problem.clone() },
    }
}

} // verus!
