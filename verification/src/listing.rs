//! The forks on this machine, with where each one stands.
use vstd::prelude::*;

use crate::activation::keys::{self, package_display_name, ActivationPaths, PathsView};
use crate::activation::store::{self, status, RecordFacts, RecordFactsView};
use crate::command::{self, in_context};
use crate::copying::Copied;
use crate::forking::{self, fork_reference};
use crate::git::{self, repo_state, RepoReads, RepoState, RepoView};
use crate::metadata::{self, Metadata, MetadataFile, MetadataView};
use crate::number::{self, u64_text};
use crate::text::{self, cat2, cat3, fail, push_line, push_lines, Error, Text};
use crate::workspace::{self, forks_dir, Environment, EnvironmentView, Workspace, WorkspaceView};

verus! {

#[derive(Debug, Clone)]
pub struct ListOutput {
    pub forks_dir: String,
    pub forks: Vec<ForkListEntry>,
}

#[derive(Debug, Clone)]
pub struct ForkListEntry {
    pub package: String,
    pub label: String,
    pub reference: String,
    pub name: Option<String>,
    pub version: Option<String>,
    pub installable: String,
    pub attribute: String,
    pub system: String,
    pub active: bool,
    pub workspace: String,
    pub source: String,
    pub fork_point: ForkPoint,
    pub git: ForkGitState,
}

#[derive(Debug, Clone)]
pub struct ForkPoint {
    pub git_commit: String,
    pub nixpkgs_revision: Option<String>,
    pub nixpkgs_resolved_url: Option<String>,
    pub nixpkgs_locked_nar_hash: Option<String>,
    pub derivation: String,
    pub original_output: String,
    pub original_source: Option<String>,
    pub source_revision: Option<String>,
    pub source_hash: Option<String>,
    pub post_patch_source: String,
    pub post_patch_source_hash: Option<String>,
}

#[derive(Debug, Clone)]
pub struct ForkGitState {
    pub base_commit: String,
    pub base_commit_present: bool,
    pub head_commit: String,
    pub commits_on_top: Option<u64>,
    pub dirty: bool,
}

pub struct ListView {
    pub forks_dir: Text,
    pub forks: Seq<ForkEntryView>,
}

pub struct ForkEntryView {
    pub package: Text,
    pub label: Text,
    pub reference: Text,
    pub name: Option<Text>,
    pub version: Option<Text>,
    pub installable: Text,
    pub attribute: Text,
    pub system: Text,
    pub active: bool,
    pub workspace: Text,
    pub source: Text,
    pub fork_point: ForkPointView,
    pub git: ForkGitView,
}

pub struct ForkPointView {
    pub git_commit: Text,
    pub nixpkgs_revision: Option<Text>,
    pub nixpkgs_resolved_url: Option<Text>,
    pub nixpkgs_locked_nar_hash: Option<Text>,
    pub derivation: Text,
    pub original_output: Text,
    pub original_source: Option<Text>,
    pub source_revision: Option<Text>,
    pub source_hash: Option<Text>,
    pub post_patch_source: Text,
    pub post_patch_source_hash: Option<Text>,
}

pub struct ForkGitView {
    pub base_commit: Text,
    pub base_commit_present: bool,
    pub head_commit: Text,
    pub commits_on_top: Option<u64>,
    pub dirty: bool,
}

impl DeepView for ForkGitState {
    type V = ForkGitView;

    open spec fn deep_view(&self) -> ForkGitView {
        ForkGitView {
            base_commit: self.base_commit@,
            base_commit_present: self.base_commit_present,
            head_commit: self.head_commit@,
            commits_on_top: self.commits_on_top,
            dirty: self.dirty,
        }
    }
}

impl DeepView for ForkPoint {
    type V = ForkPointView;

    open spec fn deep_view(&self) -> ForkPointView {
        ForkPointView {
            git_commit: self.git_commit@,
            nixpkgs_revision: self.nixpkgs_revision.deep_view(),
            nixpkgs_resolved_url: self.nixpkgs_resolved_url.deep_view(),
            nixpkgs_locked_nar_hash: self.nixpkgs_locked_nar_hash.deep_view(),
            derivation: self.derivation@,
            original_output: self.original_output@,
            original_source: self.original_source.deep_view(),
            source_revision: self.source_revision.deep_view(),
            source_hash: self.source_hash.deep_view(),
            post_patch_source: self.post_patch_source@,
            post_patch_source_hash: self.post_patch_source_hash.deep_view(),
        }
    }
}

impl DeepView for ForkListEntry {
    type V = ForkEntryView;

    open spec fn deep_view(&self) -> ForkEntryView {
        ForkEntryView {
            package: self.package@,
            label: self.label@,
            reference: self.reference@,
            name: self.name.deep_view(),
            version: self.version.deep_view(),
            installable: self.installable@,
            attribute: self.attribute@,
            system: self.system@,
            active: self.active,
            workspace: self.workspace@,
            source: self.source@,
            fork_point: self.fork_point.deep_view(),
            git: self.git.deep_view(),
        }
    }
}

impl DeepView for ListOutput {
    type V = ListView;

    open spec fn deep_view(&self) -> ListView {
        ListView { forks_dir: self.forks_dir@, forks: self.forks.deep_view() }
    }
}

/// A managed fork with what was read of it: its metadata and its repository.
pub struct ForkFacts {
    pub workspace: Workspace,
    pub metadata: MetadataFile,
    pub repo: RepoReads,
}

// ---- One fork

/// What is listed of a fork.
pub open spec fn listed(w: WorkspaceView, m: MetadataView, repo: RepoView, active: bool) -> ForkEntryView {
    ForkEntryView {
        package: keys::display_name_of(m),
        label: m.fork.label,
        reference: forking::reference_of(keys::display_name_of(m), m.fork.label),
        name: m.package.name,
        version: m.package.version,
        installable: m.package.installable,
        attribute: m.package.attribute,
        system: m.package.system,
        active,
        workspace: w.root,
        source: w.source,
        fork_point: ForkPointView {
            git_commit: m.base.git_commit,
            nixpkgs_revision: m.base.nixpkgs_revision,
            nixpkgs_resolved_url: m.base.nixpkgs_resolved_url,
            nixpkgs_locked_nar_hash: m.base.nixpkgs_locked_nar_hash,
            derivation: m.base.derivation,
            original_output: m.base.output,
            original_source: m.base.source,
            source_revision: m.base.source_revision,
            source_hash: m.base.source_hash,
            post_patch_source: m.base.post_patch_source,
            post_patch_source_hash: m.base.post_patch_source_hash,
        },
        git: ForkGitView {
            base_commit: repo.base_commit,
            base_commit_present: repo.base_commit_present,
            head_commit: repo.head_commit,
            commits_on_top: repo.commits_on_top,
            dirty: repo.dirty,
        },
    }
}

fn list_entry(workspace: &Workspace, metadata: &Metadata, repo: RepoState, active: bool) -> (r: ForkListEntry)
    ensures
        r.deep_view() == listed(
            workspace.deep_view(),
            metadata.deep_view(),
            repo.deep_view(),
            active,
        ),
{
    let package = package_display_name(metadata);
    let label = metadata.fork_label().to_owned();
    let reference = fork_reference(package.as_str(), label.as_str());
    ForkListEntry {
        package,
        label,
        reference,
        name: metadata.package.name.copied(),
        version: metadata.package.version.copied(),
        installable: metadata.package.installable.clone(),
        attribute: metadata.package.attribute.clone(),
        system: metadata.package.system.clone(),
        active,
        workspace: workspace.root.clone(),
        source: workspace.source.clone(),
        fork_point: ForkPoint {
            git_commit: metadata.base.git_commit.clone(),
            nixpkgs_revision: metadata.base.nixpkgs_revision.copied(),
            nixpkgs_resolved_url: metadata.base.nixpkgs_resolved_url.copied(),
            nixpkgs_locked_nar_hash: metadata.base.nixpkgs_locked_nar_hash.copied(),
            derivation: metadata.base.derivation.clone(),
            original_output: metadata.base.output.clone(),
            original_source: metadata.base.source.copied(),
            source_revision: metadata.base.source_revision.copied(),
            source_hash: metadata.base.source_hash.copied(),
            post_patch_source: metadata.base.post_patch_source.clone(),
            post_patch_source_hash: metadata.base.post_patch_source_hash.copied(),
        },
        git: ForkGitState {
            base_commit: repo.base_commit,
            base_commit_present: repo.base_commit_present,
            head_commit: repo.head_commit,
            commits_on_top: repo.commits_on_top,
            dirty: repo.dirty,
        },
    }
}

/// The entry of a fork, from what was read of it.
pub open spec fn entry_from(
    fork: ForkFacts,
    p: Result<PathsView, Text>,
    records: Seq<RecordFactsView>,
) -> Result<ForkEntryView, Text> {
    let w = fork.workspace.deep_view();
    match command::within(
        "failed to read "@ + w.metadata,
        metadata::metadata_in(w.metadata, fork.metadata.deep_view()),
    ) {
        Err(problem) => Err(problem),
        Ok(m) => match command::within(
            "failed to inspect Git state in "@ + w.source,
            git::repo_of(m.base.git_commit, fork.repo),
        ) {
            Err(problem) => Err(problem),
            Ok(repo) => match p {
                Err(problem) => Err(problem),
                Ok(p) => match store::status_of(m, p, records) {
                    Err(problem) => Err(problem),
                    Ok(active) => Ok(listed(w, m, repo, active is Some)),
                },
            },
        },
    }
}

fn collect_entry(fork: &ForkFacts, env: &Environment, records: &Vec<RecordFacts>) -> (r: Result<
    ForkListEntry,
    Error,
>)
    ensures
        text::outcome(r) == entry_from(
            *fork,
            keys::paths_from(env.deep_view()),
            records.deep_view(),
        ),
{
    let path = fork.workspace.metadata.as_str();
    let metadata = match Metadata::read(path, &fork.metadata) {
        Ok(metadata) => metadata,
        Err(error) => {
            return Err(
                fail(cat3(cat2("failed to read ", path).as_str(), ": ", error.message.as_str())),
            );
        },
    };
    let repo = match in_context(
        cat2("failed to inspect Git state in ", fork.workspace.source.as_str()).as_str(),
        repo_state(metadata.base.git_commit.as_str(), &fork.repo),
    ) {
        Ok(repo) => repo,
        Err(error) => {
            return Err(error);
        },
    };
    let paths = match ActivationPaths::from_env(env) {
        Ok(paths) => paths,
        Err(error) => {
            return Err(error);
        },
    };
    match status(metadata, &paths, records) {
        Ok(active) => Ok(list_entry(&fork.workspace, metadata, repo, active.is_some())),
        Err(error) => Err(error),
    }
}

// ---- All forks

/// The entries of the forks, or the first failure.
pub open spec fn entries_from(
    forks: Seq<ForkFacts>,
    p: Result<PathsView, Text>,
    records: Seq<RecordFactsView>,
) -> Result<Seq<ForkEntryView>, Text>
    decreases forks.len(),
{
    if forks.len() == 0 {
        Ok(Seq::empty())
    } else {
        match entries_from(forks.drop_last(), p, records) {
            Err(problem) => Err(problem),
            Ok(front) => match entry_from(forks.last(), p, records) {
                Err(problem) => Err(problem),
                Ok(entry) => Ok(front.push(entry)),
            },
        }
    }
}

proof fn lemma_entries_stop(
    forks: Seq<ForkFacts>,
    p: Result<PathsView, Text>,
    records: Seq<RecordFactsView>,
    i: int,
)
    requires
        0 <= i <= forks.len(),
        entries_from(forks.take(i), p, records) is Err,
    ensures
        entries_from(forks, p, records) == entries_from(forks.take(i), p, records),
    decreases forks.len(),
{
    if i < forks.len() {
        assert(forks.drop_last().take(i) =~= forks.take(i));
        lemma_entries_stop(forks.drop_last(), p, records, i);
    } else {
        assert(forks.take(i) =~= forks);
    }
}

/// The list of the managed forks.
pub open spec fn list_of(
    env: EnvironmentView,
    forks: Seq<ForkFacts>,
    records: Seq<RecordFactsView>,
) -> Result<ListView, Text> {
    match entries_from(forks, keys::paths_from(env), records) {
        Err(problem) => Err(problem),
        Ok(entries) => Ok(ListView { forks_dir: workspace::forks_dir_of(env), forks: entries }),
    }
}

/// Lists the managed forks.
pub fn collect_list(env: &Environment, forks: &Vec<ForkFacts>, records: &Vec<RecordFacts>) -> (r: Result<
    ListOutput,
    Error,
>)
    ensures
        text::outcome(r) == list_of(env.deep_view(), forks@, records.deep_view()),
{
    let ghost p = keys::paths_from(env.deep_view());
    let mut entries: Vec<ForkListEntry> = Vec::new();
    let mut i: usize = 0;
    assert(entries.deep_view() =~= Seq::empty());
    while i < forks.len()
        invariant
            i <= forks@.len(),
            p == keys::paths_from(env.deep_view()),
            entries_from(forks@.take(i as int), p, records.deep_view()) == Ok::<
                Seq<ForkEntryView>,
                Text,
            >(entries.deep_view()),
        decreases forks@.len() - i,
    {
        let ghost before = entries.deep_view();
        assert(forks@.take(i + 1).drop_last() =~= forks@.take(i as int));
        assert(forks@.take(i + 1).last() == forks@[i as int]);
        match collect_entry(&forks[i], env, records) {
            Err(error) => {
                proof {
                    lemma_entries_stop(forks@, p, records.deep_view(), i + 1);
                }
                return Err(error);
            },
            Ok(entry) => {
                entries.push(entry);
                assert(entries.deep_view() =~= before.push(entry.deep_view()));
            },
        }
        i += 1;
    }
    assert(forks@.take(forks@.len() as int) =~= forks@);
    Ok(ListOutput { forks_dir: forks_dir(env), forks: entries })
}

// ---- What is printed

pub open spec fn yes_or_no(value: bool) -> Text {
    if value {
        "yes"@
    } else {
        "no"@
    }
}

pub(crate) fn yes_no(value: bool) -> (r: &'static str)
    ensures
        r@ == yes_or_no(value),
{
    if value {
        "yes"
    } else {
        "no"
    }
}

pub open spec fn count_or_unknown(count: Option<u64>) -> Text {
    match count {
        Some(count) => number::decimal(count as nat),
        None => "unknown"@,
    }
}

pub(crate) fn count_text(count: Option<u64>) -> (r: String)
    ensures
        r@ == count_or_unknown(count),
{
    match count {
        Some(count) => u64_text(count),
        None => "unknown".to_owned(),
    }
}

/// A line for a value that may be absent.
pub open spec fn if_present(label: Text, value: Option<Text>) -> Seq<Text> {
    match value {
        Some(value) => seq![label + value],
        None => Seq::empty(),
    }
}

pub(crate) fn push_present(lines: &mut Vec<String>, label: &str, value: &Option<String>)
    ensures
        final(lines).deep_view() == old(lines).deep_view() + if_present(label@, value.deep_view()),
{
    match value {
        Some(value) => {
            push_line(lines, cat2(label, value.as_str()));
            assert(lines.deep_view() =~= old(lines).deep_view() + if_present(
                label@,
                Some(value@),
            ));
        },
        None => {
            assert(lines.deep_view() =~= old(lines).deep_view() + if_present(label@, None));
        },
    }
}

pub open spec fn version_or_dash(version: Option<Text>) -> Text {
    match version {
        Some(version) => version,
        None => "-"@,
    }
}

pub open spec fn headline(fork: ForkEntryView) -> Text {
    fork.reference + " "@ + version_or_dash(fork.version) + " active:"@ + yes_or_no(fork.active)
        + " commits_on_top:"@ + count_or_unknown(fork.git.commits_on_top) + " dirty:"@ + yes_or_no(
        fork.git.dirty,
    )
}

/// The lines that every fork has.
pub open spec fn entry_head(fork: ForkEntryView) -> Seq<Text> {
    seq![
        headline(fork),
        "  workspace: "@ + fork.workspace,
        "  source: "@ + fork.source,
        "  installable: "@ + fork.installable,
        "  attribute: "@ + fork.attribute,
        "  fork_point: "@ + fork.fork_point.git_commit,
        "  head: "@ + fork.git.head_commit,
        "  base_commit_present: "@ + yes_or_no(fork.git.base_commit_present),
    ]
}

/// The lines that tell of one fork.
pub open spec fn entry_lines(fork: ForkEntryView) -> Seq<Text> {
    entry_head(fork) + if_present("  nixpkgs_revision: "@, fork.fork_point.nixpkgs_revision)
        + if_present("  nixpkgs_resolved_url: "@, fork.fork_point.nixpkgs_resolved_url)
        + if_present("  original_source: "@, fork.fork_point.original_source) + if_present(
        "  source_hash: "@,
        fork.fork_point.source_hash,
    )
}

fn entry_headline(fork: &ForkListEntry) -> (r: String)
    ensures
        r@ == headline(fork.deep_view()),
{
    let version = match &fork.version {
        Some(version) => version.as_str(),
        None => "-",
    };
    let mut head = cat3(fork.reference.as_str(), " ", version);
    head.append(" active:");
    head.append(yes_no(fork.active));
    head.append(" commits_on_top:");
    head.append(count_text(fork.git.commits_on_top).as_str());
    head.append(" dirty:");
    head.append(yes_no(fork.git.dirty));
    head
}

fn head_of(fork: &ForkListEntry) -> (r: Vec<String>)
    ensures
        r.deep_view() == entry_head(fork.deep_view()),
{
    let mut lines: Vec<String> = Vec::new();
    push_line(&mut lines, entry_headline(fork));
    push_line(&mut lines, cat2("  workspace: ", fork.workspace.as_str()));
    push_line(&mut lines, cat2("  source: ", fork.source.as_str()));
    push_line(&mut lines, cat2("  installable: ", fork.installable.as_str()));
    push_line(&mut lines, cat2("  attribute: ", fork.attribute.as_str()));
    push_line(&mut lines, cat2("  fork_point: ", fork.fork_point.git_commit.as_str()));
    push_line(&mut lines, cat2("  head: ", fork.git.head_commit.as_str()));
    push_line(&mut lines, cat2("  base_commit_present: ", yes_no(fork.git.base_commit_present)));
    assert(lines.deep_view() =~= entry_head(fork.deep_view()));
    lines
}

fn lines_of(fork: &ForkListEntry) -> (r: Vec<String>)
    ensures
        r.deep_view() == entry_lines(fork.deep_view()),
{
    let mut lines = head_of(fork);
    push_present(&mut lines, "  nixpkgs_revision: ", &fork.fork_point.nixpkgs_revision);
    push_present(&mut lines, "  nixpkgs_resolved_url: ", &fork.fork_point.nixpkgs_resolved_url);
    push_present(&mut lines, "  original_source: ", &fork.fork_point.original_source);
    push_present(&mut lines, "  source_hash: ", &fork.fork_point.source_hash);
    lines
}

pub open spec fn list_lines_of(list: ListView) -> Seq<Text> {
    if list.forks.len() == 0 {
        seq!["no forks found"@, "directory: "@ + list.forks_dir]
    } else {
        text::flat_map(list.forks, |fork: ForkEntryView| entry_lines(fork))
    }
}

/// How the list is printed.
pub fn list_lines(list: &ListOutput) -> (r: Vec<String>)
    ensures
        r.deep_view() == list_lines_of(list.deep_view()),
{
    let mut lines: Vec<String> = Vec::new();
    let ghost all = list.forks.deep_view();
    let ghost f = |fork: ForkEntryView| entry_lines(fork);
    if list.forks.len() == 0 {
        push_line(&mut lines, "no forks found".to_owned());
        push_line(&mut lines, cat2("directory: ", list.forks_dir.as_str()));
        assert(lines.deep_view() =~= list_lines_of(list.deep_view()));
        return lines;
    }
    let mut i: usize = 0;
    assert(lines.deep_view() =~= text::flat_map(all.take(0), f));
    while i < list.forks.len()
        invariant
            i <= list.forks@.len(),
            all == list.forks.deep_view(),
            all.len() == list.forks@.len(),
            f == |fork: ForkEntryView| entry_lines(fork),
            lines.deep_view() == text::flat_map(all.take(i as int), f),
        decreases list.forks@.len() - i,
    {
        proof {
            text::lemma_flat_map_step(all, f, i as int);
        }
        assert(all[i as int] == list.forks@[i as int].deep_view());
        push_lines(&mut lines, lines_of(&list.forks[i]));
        i += 1;
    }
    assert(all.take(all.len() as int) =~= all);
    lines
}

} // verus!
