//! Finding records: that of one fork, and all there are.
use vstd::prelude::*;

use crate::activation::keys::{self, fork_display_name, record_paths_for_metadata, ActivationPaths, PathsView};
use crate::activation::records::{ActivationRecord, ActivationRecordEntry, EntryView, RecordView};
use crate::copying::Copied;
use crate::directory::{self, tell, TypeRead};
use crate::metadata::{Metadata, MetadataView};
use crate::order::{self, sort};
use crate::paths::{self, join};
use crate::snapshot::TargetKind;
use crate::text::{self, cat2, cat3, fail, same, Error, Text};

verus! {

// ---- Reading one record

/// The answer to reading and parsing a record's file.
#[derive(Debug, Clone)]
pub enum RecordFile {
    NotRead { cause: String },
    NotParsed { cause: String },
    Parsed { record: Box<ActivationRecord> },
}

pub enum RecordFileView {
    NotRead { cause: Text },
    NotParsed { cause: Text },
    Parsed { record: RecordView },
}

impl DeepView for RecordFile {
    type V = RecordFileView;

    open spec fn deep_view(&self) -> RecordFileView {
        match self {
            RecordFile::NotRead { cause } => RecordFileView::NotRead { cause: cause@ },
            RecordFile::NotParsed { cause } => RecordFileView::NotParsed { cause: cause@ },
            RecordFile::Parsed { record } => RecordFileView::Parsed { record: record.deep_view() },
        }
    }
}

/// A record from before keys were written has its package's name for a key.
pub open spec fn keyed(record: RecordView) -> RecordView {
    if record.key.len() == 0 {
        RecordView { key: record.package, ..record }
    } else {
        record
    }
}

/// What could not be done with a record's file.
pub open spec fn read_step(path: Text, file: RecordFileView) -> Text {
    match file {
        RecordFileView::NotParsed { .. } => "failed to parse "@ + path,
        _ => "failed to read activation record "@ + path,
    }
}

/// The record in a file, or why there is none.
pub open spec fn record_in(path: Text, file: RecordFileView) -> Result<RecordView, Text> {
    match file {
        RecordFileView::NotRead { cause } => Err(read_step(path, file) + ": "@ + cause),
        RecordFileView::NotParsed { cause } => Err(read_step(path, file) + ": "@ + cause),
        RecordFileView::Parsed { record } => Ok(keyed(record)),
    }
}

/// The record that reading the file at `path` gives.
pub fn read_record(path: &str, file: &RecordFile) -> (r: Result<ActivationRecord, Error>)
    ensures
        text::outcome(r) == record_in(path@, file.deep_view()),
{
    match file {
        RecordFile::NotRead { cause } => Err(
            fail(
                cat3(
                    cat2("failed to read activation record ", path).as_str(),
                    ": ",
                    cause.as_str(),
                ),
            ),
        ),
        RecordFile::NotParsed { cause } => Err(
            fail(cat3(cat2("failed to parse ", path).as_str(), ": ", cause.as_str())),
        ),
        RecordFile::Parsed { record } => {
            let mut record = record.copied();
            if record.key.as_str().is_empty() {
                record.key = record.package.clone();
            }
            Ok(record)
        },
    }
}

// ---- The record of one fork

/// What was found at a path where a record may be.
#[derive(Debug, Clone)]
pub struct RecordFacts {
    pub path: String,
    pub target: TargetKind,
    pub file: RecordFile,
}

pub struct RecordFactsView {
    pub path: Text,
    pub target: TargetKind,
    pub file: RecordFileView,
}

impl DeepView for RecordFacts {
    type V = RecordFactsView;

    open spec fn deep_view(&self) -> RecordFactsView {
        RecordFactsView {
            path: self.path@,
            target: self.target,
            file: self.file.deep_view(),
        }
    }
}

/// The first facts for a path, if there are any.
pub open spec fn facts_for(facts: Seq<RecordFactsView>, path: Text) -> Option<RecordFactsView>
    decreases facts.len(),
{
    if facts.len() == 0 {
        None
    } else if facts[0].path == path {
        Some(facts[0])
    } else {
        facts_for(facts.drop_first(), path)
    }
}

pub(crate) fn record_facts<'a>(facts: &'a Vec<RecordFacts>, path: &str) -> (r: Option<
    &'a RecordFacts,
>)
    ensures
        match r {
            Some(found) => facts_for(facts.deep_view(), path@) == Some(found.deep_view()),
            None => facts_for(facts.deep_view(), path@) is None,
        },
{
    let ghost all = facts.deep_view();
    let mut i: usize = 0;
    assert(all.skip(0) =~= all);
    while i < facts.len()
        invariant
            i <= facts@.len(),
            all == facts.deep_view(),
            all.len() == facts@.len(),
            facts_for(all, path@) == facts_for(all.skip(i as int), path@),
        decreases facts@.len() - i,
    {
        assert(all.skip(i as int)[0] == facts@[i as int].deep_view());
        if same(facts[i].path.as_str(), path) {
            return Some(&facts[i]);
        }
        assert(all.skip(i as int).drop_first() =~= all.skip(i + 1));
        i += 1;
    }
    None
}

/// Whether something stands at a record's path.
pub open spec fn record_exists(facts: Seq<RecordFactsView>, path: Text) -> bool {
    match facts_for(facts, path) {
        Some(found) => found.target != TargetKind::Missing,
        None => false,
    }
}

/// The file at a record's path, if one is there.
pub open spec fn record_file(facts: Seq<RecordFactsView>, path: Text) -> Option<RecordFileView> {
    match facts_for(facts, path) {
        Some(found) => if found.target == TargetKind::File {
            Some(found.file)
        } else {
            None
        },
        None => None,
    }
}

/// The first of the paths with a file, and that file.
pub open spec fn first_file(paths: Seq<Text>, facts: Seq<RecordFactsView>) -> Option<
    (Text, RecordFileView),
>
    decreases paths.len(),
{
    if paths.len() == 0 {
        None
    } else {
        match record_file(facts, paths[0]) {
            Some(file) => Some((paths[0], file)),
            None => first_file(paths.drop_first(), facts),
        }
    }
}

fn find_first<'a>(paths: &Vec<String>, facts: &'a Vec<RecordFacts>) -> (r: Option<
    (String, &'a RecordFile),
>)
    ensures
        first_file(paths.deep_view(), facts.deep_view()) == (match r {
            Some((path, file)) => Some((path@, file.deep_view())),
            None => None::<(Text, RecordFileView)>,
        }),
{
    let ghost all = paths.deep_view();
    let mut i: usize = 0;
    assert(all.skip(0) =~= all);
    while i < paths.len()
        invariant
            i <= paths@.len(),
            all == paths.deep_view(),
            all.len() == paths@.len(),
            first_file(all, facts.deep_view()) == first_file(
                all.skip(i as int),
                facts.deep_view(),
            ),
        decreases paths@.len() - i,
    {
        assert(all.skip(i as int)[0] == paths@[i as int]@);
        if let Some(found) = record_facts(facts, paths[i].as_str()) {
            if found.target == TargetKind::File {
                return Some((paths[i].clone(), &found.file));
            }
        }
        assert(all.skip(i as int).drop_first() =~= all.skip(i + 1));
        i += 1;
    }
    None
}

/// The record of a fork: the first file among the paths it may be kept at.
pub open spec fn status_of(
    m: MetadataView,
    p: PathsView,
    facts: Seq<RecordFactsView>,
) -> Result<Option<RecordView>, Text> {
    match first_file(keys::record_paths_of(m, p), facts) {
        None => Ok(None),
        Some((path, file)) => match record_in(path, file) {
            Ok(record) => Ok(Some(record)),
            Err(problem) => Err(problem),
        },
    }
}

/// The activation of a fork, if it is active.
pub fn status(metadata: &Metadata, paths: &ActivationPaths, facts: &Vec<RecordFacts>) -> (r: Result<
    Option<ActivationRecord>,
    Error,
>)
    ensures
        text::outcome(r) == status_of(metadata.deep_view(), paths.deep_view(), facts.deep_view()),
{
    let record_paths = record_paths_for_metadata(metadata, paths);
    match find_first(&record_paths, facts) {
        None => Ok(None),
        Some((path, file)) => match read_record(path.as_str(), file) {
            Ok(record) => Ok(Some(record)),
            Err(error) => Err(error),
        },
    }
}

/// As `status_of`, with a failure told by its step alone.
pub open spec fn status_step_of(
    m: MetadataView,
    p: PathsView,
    facts: Seq<RecordFactsView>,
) -> Result<bool, Text> {
    match first_file(keys::record_paths_of(m, p), facts) {
        None => Ok(false),
        Some((path, file)) => match file {
            RecordFileView::Parsed { .. } => Ok(true),
            _ => Err(read_step(path, file)),
        },
    }
}

/// Whether a fork is active; a failure is told without its cause.
pub(crate) fn status_step(
    metadata: &Metadata,
    paths: &ActivationPaths,
    facts: &Vec<RecordFacts>,
) -> (r: Result<bool, Error>)
    ensures
        text::outcome(r) == status_step_of(
            metadata.deep_view(),
            paths.deep_view(),
            facts.deep_view(),
        ),
{
    let record_paths = record_paths_for_metadata(metadata, paths);
    match find_first(&record_paths, facts) {
        None => Ok(false),
        Some((path, file)) => match file {
            RecordFile::Parsed { .. } => Ok(true),
            RecordFile::NotParsed { .. } => Err(fail(cat2("failed to parse ", path.as_str()))),
            RecordFile::NotRead { .. } => Err(
                fail(cat2("failed to read activation record ", path.as_str())),
            ),
        },
    }
}

/// Whether something stands at one of the paths.
pub open spec fn any_exists(paths: Seq<Text>, facts: Seq<RecordFactsView>) -> bool {
    exists|i: int| 0 <= i < paths.len() && record_exists(facts, #[trigger] paths[i])
}

/// The refusal to activate a fork a second time.
pub open spec fn already_active(m: MetadataView) -> Text {
    keys::fork_display_name_of(m) + " is already active; run forkpkg disable first"@
}

/// Refuses where a fork has a record already.
pub(crate) fn refuse_active(
    metadata: &Metadata,
    paths: &ActivationPaths,
    facts: &Vec<RecordFacts>,
) -> (r: Result<(), Error>)
    ensures
        match r {
            Ok(()) => !any_exists(
                keys::record_paths_of(metadata.deep_view(), paths.deep_view()),
                facts.deep_view(),
            ),
            Err(error) => {
                &&& any_exists(
                    keys::record_paths_of(metadata.deep_view(), paths.deep_view()),
                    facts.deep_view(),
                )
                &&& error@ == already_active(metadata.deep_view())
            },
        },
{
    let record_paths = record_paths_for_metadata(metadata, paths);
    let ghost all = record_paths.deep_view();
    let mut i: usize = 0;
    while i < record_paths.len()
        invariant
            i <= record_paths@.len(),
            all == record_paths.deep_view(),
            all.len() == record_paths@.len(),
            all == keys::record_paths_of(metadata.deep_view(), paths.deep_view()),
            forall|j: int| 0 <= j < i ==> !record_exists(facts.deep_view(), #[trigger] all[j]),
        decreases record_paths@.len() - i,
    {
        assert(all[i as int] == record_paths@[i as int]@);
        if let Some(found) = record_facts(facts, record_paths[i].as_str()) {
            if found.target != TargetKind::Missing {
                assert(record_exists(facts.deep_view(), all[i as int]));
                return Err(
                    fail(
                        cat2(
                            fork_display_name(metadata).as_str(),
                            " is already active; run forkpkg disable first",
                        ),
                    ),
                );
            }
        }
        i += 1;
    }
    Ok(())
}

// ---- All records

/// What reading a directory below the activations directory answered.
#[derive(Debug)]
pub enum RecordTree {
    NotRead { cause: String },
    Listed { entries: Vec<RecordTreeEntry> },
}

/// One entry of such a directory: for a directory, the file of its record and, in
/// case there is none, what is below it.
#[derive(Debug)]
pub enum RecordTreeEntry {
    NotRead { cause: String },
    Entry {
        path: String,
        file_type: TypeRead,
        has_record: bool,
        file: RecordFile,
        below: Box<RecordTree>,
    },
}

/// The entry that a record's file makes.
pub open spec fn entry_of(path: Text, file: RecordFileView) -> EntryView {
    match record_in(path, file) {
        Ok(record) => EntryView::Valid { path, record },
        Err(problem) => EntryView::Broken { path, problem },
    }
}

fn record_entry(path: String, file: &RecordFile) -> (r: ActivationRecordEntry)
    ensures
        r.deep_view() == entry_of(path@, file.deep_view()),
{
    match read_record(path.as_str(), file) {
        Ok(record) => ActivationRecordEntry::Valid { path, record: Box::new(record) },
        Err(error) => ActivationRecordEntry::Broken { path, problem: error.message },
    }
}

/// The records at or below one entry of a directory.
pub open spec fn records_at(dir: Text, entry: RecordTreeEntry) -> Result<Seq<EntryView>, Text>
    decreases entry,
{
    match entry {
        RecordTreeEntry::NotRead { cause } => Err(
            directory::told("failed to read entry in "@, dir, cause@),
        ),
        RecordTreeEntry::Entry { path, file_type, has_record, file, below } => match file_type {
            TypeRead::Failed { cause } => Err(
                directory::told("failed to inspect "@, path@, cause@),
            ),
            TypeRead::Directory => if has_record {
                let record_path = paths::joined(path@, "activation.toml"@);
                Ok(seq![entry_of(record_path, file.deep_view())])
            } else {
                records_below(path@, *below)
            },
            _ => Ok(Seq::empty()),
        },
    }
}

/// The records at or below the entries of a directory, or the first failure.
pub open spec fn records_among(dir: Text, entries: Seq<RecordTreeEntry>) -> Result<
    Seq<EntryView>,
    Text,
>
    decreases entries,
{
    if entries.len() == 0 {
        Ok(Seq::empty())
    } else {
        match records_at(dir, entries[0]) {
            Err(problem) => Err(problem),
            Ok(first) => match records_among(dir, entries.drop_first()) {
                Err(problem) => Err(problem),
                Ok(rest) => Ok(first + rest),
            },
        }
    }
}

/// The records below a directory. A directory with a record of its own is not
/// searched further.
pub open spec fn records_below(dir: Text, tree: RecordTree) -> Result<Seq<EntryView>, Text>
    decreases tree,
{
    match tree {
        RecordTree::NotRead { cause } => Err(directory::told("failed to read "@, dir, cause@)),
        RecordTree::Listed { entries } => records_among(dir, entries@),
    }
}

fn collect_at(dir: &str, entry: &RecordTreeEntry) -> (r: Result<Vec<ActivationRecordEntry>, Error>)
    ensures
        text::outcome(r) == records_at(dir@, *entry),
    decreases entry,
{
    match entry {
        RecordTreeEntry::NotRead { cause } => Err(
            tell("failed to read entry in ", dir, cause.as_str()),
        ),
        RecordTreeEntry::Entry { path, file_type, has_record, file, below } => match file_type {
            TypeRead::Failed { cause } => Err(
                tell("failed to inspect ", path.as_str(), cause.as_str()),
            ),
            TypeRead::Directory => if *has_record {
                let mut found: Vec<ActivationRecordEntry> = Vec::new();
                let record_path = join(path.as_str(), "activation.toml");
                found.push(record_entry(record_path, file));
                assert(found.deep_view() =~= records_at(dir@, *entry)->Ok_0);
                Ok(found)
            } else {
                collect_record_entries(path.as_str(), below)
            },
            _ => {
                let found: Vec<ActivationRecordEntry> = Vec::new();
                assert(found.deep_view() =~= Seq::empty());
                Ok(found)
            },
        },
    }
}

fn collect_record_entries(dir: &str, tree: &RecordTree) -> (r: Result<
    Vec<ActivationRecordEntry>,
    Error,
>)
    ensures
        text::outcome(r) == records_below(dir@, *tree),
    decreases tree,
{
    let entries = match tree {
        RecordTree::NotRead { cause } => {
            return Err(tell("failed to read ", dir, cause.as_str()));
        },
        RecordTree::Listed { entries } => entries,
    };
    let ghost all = entries@;
    let mut found: Vec<ActivationRecordEntry> = Vec::new();
    let mut i: usize = 0;
    assert(all.skip(0) =~= all);
    assert(found.deep_view() =~= Seq::empty());
    while i < entries.len()
        invariant
            i <= entries@.len(),
            all == entries@,
            *tree == (RecordTree::Listed { entries: *entries }),
            records_among(dir@, all) == (match records_among(dir@, all.skip(i as int)) {
                Err(problem) => Err::<Seq<EntryView>, Text>(problem),
                Ok(rest) => Ok(found.deep_view() + rest),
            }),
        decreases entries@.len() - i,
    {
        assert(all.skip(i as int)[0] == entries@[i as int]);
        assert(all.skip(i as int).drop_first() =~= all.skip(i + 1));
        assert(decreases_to!(tree => entries@[i as int]));
        match collect_at(dir, &entries[i]) {
            Err(error) => {
                return Err(error);
            },
            Ok(more) => {
                let mut more = more;
                let ghost before = found.deep_view();
                let ghost added = more.deep_view();
                found.append(&mut more);
                assert(found.deep_view() =~= before + added);
                proof {
                    if let Ok(rest) = records_among(dir@, all.skip(i + 1)) {
                        assert(before + (added + rest) =~= (before + added) + rest);
                    }
                }
            },
        }
        i += 1;
    }
    assert(all.skip(all.len() as int) =~= Seq::empty());
    assert(found.deep_view() + Seq::empty() =~= found.deep_view());
    Ok(found)
}

/// All records, sorted by the path of their file.
pub open spec fn all_records(dir: Text, tree: RecordTree) -> Result<Seq<EntryView>, Text> {
    match records_below(dir, tree) {
        Err(problem) => Err(problem),
        Ok(found) => Ok(order::sorted::<ActivationRecordEntry>(found)),
    }
}

/// Every record below the activations directory; none where there is no such
/// directory.
pub open spec fn entries_in(p: PathsView, tree: Option<RecordTree>) -> Result<Seq<EntryView>, Text> {
    match tree {
        None => Ok(Seq::empty()),
        Some(tree) => all_records(p.activations_dir, tree),
    }
}

pub fn list_record_entries(paths: &ActivationPaths, tree: &Option<RecordTree>) -> (r: Result<
    Vec<ActivationRecordEntry>,
    Error,
>)
    ensures
        text::outcome(r) == entries_in(paths.deep_view(), *tree),
{
    match tree {
        None => {
            let found: Vec<ActivationRecordEntry> = Vec::new();
            assert(found.deep_view() =~= Seq::empty());
            Ok(found)
        },
        Some(tree) => match collect_record_entries(paths.activations_dir.as_str(), tree) {
            Err(error) => Err(error),
            Ok(found) => Ok(sort(found)),
        },
    }
}

} // verus!
