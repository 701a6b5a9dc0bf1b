//! Looking over all forks and activations on the machine.
use vstd::prelude::*;

use crate::activation::check::{self, check_record};
use crate::activation::keys::{
    self, activations_dir, fork_display_name, ActivationPaths, PathsView,
};
use crate::activation::profiles::{ListingView, ProfileListing};
use crate::activation::records::{
    ActivationRecord, ActivationRecordEntry, EntryView, LinkRecord, RecordView,
};
use crate::activation::store::{
    self, list_record_entries, status_step, RecordFacts, RecordFactsView, RecordTree,
};
use crate::copying::Copied;
use crate::listing::{self, yes_no};
use crate::metadata::{self, Metadata, MetadataFile};
use crate::number::{self, usize_text};
use crate::reports::{self, disable_lines, label_all, one, report_all, report_parts, two, Style};
use crate::snapshot::Snapshot;
use crate::text::{self, cat2, cat3, cat4, cat6, fail, push_line, push_lines, Error, Text};
use crate::workspace::{self, forks_dir, Environment, EnvironmentView, Workspace};

verus! {

// ---- Forks

/// A managed fork with what reading its metadata gave.
pub struct ForkHealth {
    pub workspace: Workspace,
    pub metadata: MetadataFile,
}

/// Whether a fork is active; what keeps that from being known is told without its cause.
pub open spec fn activity(
    fork: ForkHealth,
    p: Result<PathsView, Text>,
    records: Seq<RecordFactsView>,
) -> Result<bool, Text> {
    let file = metadata::metadata_step_in(
        fork.workspace.deep_view().metadata,
        fork.metadata.deep_view(),
    );
    match file {
        Err(problem) => Err(problem),
        Ok(m) => match p {
            Err(problem) => Err(problem),
            Ok(p) => store::status_step_of(m, p, records),
        },
    }
}

pub open spec fn fork_line(
    fork: ForkHealth,
    p: Result<PathsView, Text>,
    records: Seq<RecordFactsView>,
) -> Text {
    let w = fork.workspace.deep_view();
    let file = metadata::metadata_step_in(w.metadata, fork.metadata.deep_view());
    match file {
        Err(problem) => "fork: unknown status:broken workspace:"@ + w.root + " problem:"@ + problem,
        Ok(m) => match activity(fork, p, records) {
            Ok(active) => "fork: "@ + keys::fork_display_name_of(m) + " active:"@
                + listing::yes_or_no(active) + " workspace:"@ + w.root,
            Err(problem) => "fork: "@ + keys::fork_display_name_of(m)
                + " active:broken workspace:"@ + w.root + " problem:"@ + problem,
        },
    }
}

/// Looks at one fork: its line, and whether it is in order.
fn examine_fork(fork: &ForkHealth, env: &Environment, records: &Vec<RecordFacts>) -> (r: (String, bool))
    ensures
        r.0@ == fork_line(*fork, keys::paths_from(env.deep_view()), records.deep_view()),
        r.1 == (activity(*fork, keys::paths_from(env.deep_view()), records.deep_view()) is Ok),
{
    let root = fork.workspace.root.as_str();
    let metadata = match Metadata::read_step(fork.workspace.metadata.as_str(), &fork.metadata) {
        Ok(metadata) => metadata,
        Err(error) => {
            let line = cat4(
                "fork: unknown status:broken workspace:",
                root,
                " problem:",
                error.message.as_str(),
            );
            return (line, false);
        },
    };
    let name = fork_display_name(metadata);
    let active = match ActivationPaths::from_env(env) {
        Ok(paths) => status_step(metadata, &paths, records),
        Err(error) => Err(error),
    };
    match active {
        Ok(active) => (
            cat6("fork: ", name.as_str(), " active:", yes_no(active), " workspace:", root),
            true,
        ),
        Err(error) => (
            cat6(
                "fork: ",
                name.as_str(),
                " active:broken workspace:",
                root,
                " problem:",
                error.message.as_str(),
            ),
            false,
        ),
    }
}

pub open spec fn fork_lines_of(
    forks: Seq<ForkHealth>,
    p: Result<PathsView, Text>,
    records: Seq<RecordFactsView>,
) -> Seq<Text> {
    forks.map_values(|fork: ForkHealth| fork_line(fork, p, records))
}

/// How many forks are not in order.
pub open spec fn broken_forks(
    forks: Seq<ForkHealth>,
    p: Result<PathsView, Text>,
    records: Seq<RecordFactsView>,
) -> nat
    decreases forks.len(),
{
    if forks.len() == 0 {
        0
    } else {
        broken_forks(forks.drop_last(), p, records) + if activity(forks.last(), p, records) is Ok {
            0nat
        } else {
            1nat
        }
    }
}

fn examine_forks(forks: &Vec<ForkHealth>, env: &Environment, records: &Vec<RecordFacts>) -> (r: (
    Vec<String>,
    usize,
))
    ensures
        r.0.deep_view() == fork_lines_of(
            forks@,
            keys::paths_from(env.deep_view()),
            records.deep_view(),
        ),
        r.1 == broken_forks(forks@, keys::paths_from(env.deep_view()), records.deep_view()),
        r.1 <= r.0@.len(),
{
    let ghost p = keys::paths_from(env.deep_view());
    let ghost goal = fork_lines_of(forks@, p, records.deep_view());
    let mut lines: Vec<String> = Vec::new();
    let mut broken: usize = 0;
    let mut i: usize = 0;
    assert(lines.deep_view() =~= goal.take(0));
    while i < forks.len()
        invariant
            i <= forks@.len(),
            p == keys::paths_from(env.deep_view()),
            goal == fork_lines_of(forks@, p, records.deep_view()),
            goal.len() == forks@.len(),
            lines.deep_view() == goal.take(i as int),
            lines@.len() == i,
            broken == broken_forks(forks@.take(i as int), p, records.deep_view()),
            broken <= i,
        decreases forks@.len() - i,
    {
        let (line, in_order) = examine_fork(&forks[i], env, records);
        push_line(&mut lines, line);
        assert(lines@.len() == lines.deep_view().len());
        assert(forks@.take(i + 1).drop_last() =~= forks@.take(i as int));
        assert(goal.take(i + 1) =~= goal.take(i as int).push(goal[i as int]));
        if !in_order {
            broken += 1;
        }
        i += 1;
    }
    assert(goal.take(goal.len() as int) =~= goal);
    assert(forks@.take(forks@.len() as int) =~= forks@);
    (lines, broken)
}

// ---- Activations

/// What is wrong with one recorded activation.
pub open spec fn entry_problems(entry: EntryView, snapshot: Snapshot, listings: Seq<ListingView>) -> Seq<
    Text,
> {
    match entry {
        EntryView::Valid { record, .. } => check::record_problems(record, snapshot, listings),
        EntryView::Broken { problem, .. } => seq![problem],
    }
}

pub open spec fn sound_lines(record: RecordView) -> Seq<Text> {
    seq!["activation: "@ + record.package + " status:ok"@] + reports::all_lines::<LinkRecord>(
        Style::Doctor,
        record.links,
    ) + reports::parts_lines(record, Style::Doctor)
}

pub open spec fn entry_lines(entry: EntryView, snapshot: Snapshot, listings: Seq<ListingView>) -> Seq<
    Text,
> {
    let problems = entry_problems(entry, snapshot, listings);
    match entry {
        EntryView::Valid { record, .. } => if problems.len() == 0 {
            sound_lines(record)
        } else {
            seq!["activation: "@ + record.package + " status:broken"@] + reports::labelled_all(
                "  problem: "@,
                problems,
            )
        },
        EntryView::Broken { path, .. } => seq!["activation_record: "@ + path + " status:broken"@]
            + reports::labelled_all("  problem: "@, problems),
    }
}

fn tell_sound(record: &ActivationRecord) -> (r: Vec<String>)
    ensures
        r.deep_view() == sound_lines(record.deep_view()),
{
    let mut lines = one(cat3("activation: ", record.package.as_str(), " status:ok"));
    push_lines(&mut lines, report_all(&record.links, Style::Doctor));
    push_lines(&mut lines, report_parts(record, Style::Doctor));
    lines
}

/// Looks at one recorded activation: its lines, and how many problems it has.
fn examine_entry(
    entry: &ActivationRecordEntry,
    snapshot: &Snapshot,
    listings: &Vec<ProfileListing>,
) -> (r: (Vec<String>, usize))
    ensures
        r.0.deep_view() == entry_lines(entry.deep_view(), *snapshot, listings.deep_view()),
        r.1 == entry_problems(entry.deep_view(), *snapshot, listings.deep_view()).len(),
        r.1 <= r.0@.len(),
{
    match entry {
        ActivationRecordEntry::Valid { record, .. } => {
            let check = check_record(record.copied(), snapshot, listings);
            assert(check.problems.deep_view().len() == check.problems@.len());
            if check.is_ok() {
                (tell_sound(&check.record), 0)
            } else {
                let mut lines = one(cat3("activation: ", record.package.as_str(), " status:broken"));
                push_lines(&mut lines, label_all("  problem: ", &check.problems));
                assert(lines@.len() == lines.deep_view().len());
                (lines, check.problems.len())
            }
        },
        ActivationRecordEntry::Broken { path, problem } => {
            let mut lines = one(cat3("activation_record: ", path.as_str(), " status:broken"));
            push_lines(&mut lines, label_all("  problem: ", &one(problem.clone())));
            assert(lines@.len() == lines.deep_view().len());
            (lines, 1)
        },
    }
}

pub open spec fn entries_lines(
    entries: Seq<EntryView>,
    snapshot: Snapshot,
    listings: Seq<ListingView>,
) -> Seq<Text> {
    text::flat_map(entries, |entry: EntryView| entry_lines(entry, snapshot, listings))
}

pub open spec fn entries_problems(
    entries: Seq<EntryView>,
    snapshot: Snapshot,
    listings: Seq<ListingView>,
) -> nat
    decreases entries.len(),
{
    if entries.len() == 0 {
        0
    } else {
        entries_problems(entries.drop_last(), snapshot, listings) + entry_problems(
            entries.last(),
            snapshot,
            listings,
        ).len()
    }
}

fn examine_entries(
    entries: &Vec<ActivationRecordEntry>,
    snapshot: &Snapshot,
    listings: &Vec<ProfileListing>,
) -> (r: (Vec<String>, usize))
    ensures
        r.0.deep_view() == entries_lines(entries.deep_view(), *snapshot, listings.deep_view()),
        r.1 == entries_problems(entries.deep_view(), *snapshot, listings.deep_view()),
        r.1 <= r.0@.len(),
{
    let ghost all = entries.deep_view();
    let ghost f = |entry: EntryView| entry_lines(entry, *snapshot, listings.deep_view());
    let mut lines: Vec<String> = Vec::new();
    let mut problems: usize = 0;
    let mut i: usize = 0;
    assert(lines.deep_view() =~= text::flat_map(all.take(0), f));
    while i < entries.len()
        invariant
            i <= entries@.len(),
            all == entries.deep_view(),
            all.len() == entries@.len(),
            f == |entry: EntryView| entry_lines(entry, *snapshot, listings.deep_view()),
            lines.deep_view() == text::flat_map(all.take(i as int), f),
            problems == entries_problems(all.take(i as int), *snapshot, listings.deep_view()),
            problems <= lines@.len(),
        decreases entries@.len() - i,
    {
        proof {
            text::lemma_flat_map_step(all, f, i as int);
        }
        assert(all[i as int] == entries@[i as int].deep_view());
        assert(all.take(i + 1).drop_last() =~= all.take(i as int));
        let ghost before = lines.deep_view();
        let (more, count) = examine_entry(&entries[i], snapshot, listings);
        let ghost added = more.deep_view();
        assert(added.len() == more@.len());
        assert(before.len() == lines@.len());
        push_lines(&mut lines, more);
        assert(lines.deep_view().len() == lines@.len());
        let total = lines.len();
        assert(total == before.len() + added.len());
        problems = problems + count;
        i += 1;
    }
    assert(all.take(all.len() as int) =~= all);
    (lines, problems)
}

// ---- The report

/// What was found: the lines to print, and why the command then fails, if it does.
pub struct DoctorReport {
    pub lines: Vec<String>,
    pub failure: Option<String>,
}

pub struct DoctorView {
    pub lines: Seq<Text>,
    pub failure: Option<Text>,
}

impl DeepView for DoctorReport {
    type V = DoctorView;

    open spec fn deep_view(&self) -> DoctorView {
        DoctorView { lines: self.lines.deep_view(), failure: self.failure.deep_view() }
    }
}

/// The lines on the forks.
pub open spec fn forks_part(
    env: EnvironmentView,
    forks: Seq<ForkHealth>,
    records: Seq<RecordFactsView>,
) -> Seq<Text> {
    seq![
        "forks_dir: "@ + workspace::forks_dir_of(env),
        "managed_forks: "@ + number::decimal(forks.len()),
    ] + fork_lines_of(forks, keys::paths_from(env), records)
}

/// The lines on the activations.
pub open spec fn activations_part(
    env: EnvironmentView,
    entries: Seq<EntryView>,
    snapshot: Snapshot,
    listings: Seq<ListingView>,
) -> Seq<Text> {
    seq![
        "activations_dir: "@ + keys::activations_dir_of(env),
        "activation_records: "@ + number::decimal(entries.len()),
    ] + entries_lines(entries, snapshot, listings)
}

pub open spec fn verdict(problems: nat) -> Text {
    if problems == 0 {
        "doctor: ok"@
    } else {
        "doctor: "@ + number::decimal(problems) + " problem(s)"@
    }
}

pub open spec fn failure_for(problems: nat) -> Option<Text> {
    if problems == 0 {
        None
    } else {
        Some("doctor found "@ + number::decimal(problems) + " problem(s)"@)
    }
}

/// The recorded activations, where the user's directories are known.
pub open spec fn recorded(env: EnvironmentView, tree: Option<RecordTree>) -> Result<
    Seq<EntryView>,
    Text,
> {
    match keys::paths_from(env) {
        Err(problem) => Err(problem),
        Ok(p) => store::entries_in(p, tree),
    }
}

pub open spec fn doctor_report(
    env: EnvironmentView,
    forks: Seq<ForkHealth>,
    records: Seq<RecordFactsView>,
    tree: Option<RecordTree>,
    snapshot: Snapshot,
    listings: Seq<ListingView>,
) -> DoctorView {
    match recorded(env, tree) {
        Err(problem) => DoctorView {
            lines: forks_part(env, forks, records),
            failure: Some(problem),
        },
        Ok(entries) => {
            let problems = broken_forks(forks, keys::paths_from(env), records) + entries_problems(
                entries,
                snapshot,
                listings,
            );
            DoctorView {
                lines: forks_part(env, forks, records) + activations_part(
                    env,
                    entries,
                    snapshot,
                    listings,
                ) + seq![verdict(problems)],
                failure: failure_for(problems),
            }
        },
    }
}

fn record_entries(env: &Environment, tree: &Option<RecordTree>) -> (r: Result<
    Vec<ActivationRecordEntry>,
    Error,
>)
    ensures
        text::outcome(r) == recorded(env.deep_view(), *tree),
{
    match ActivationPaths::from_env(env) {
        Ok(paths) => list_record_entries(&paths, tree),
        Err(error) => Err(error),
    }
}

/// Looks over the managed forks and the recorded activations.
pub fn doctor(
    env: &Environment,
    forks: &Vec<ForkHealth>,
    records: &Vec<RecordFacts>,
    tree: &Option<RecordTree>,
    snapshot: &Snapshot,
    listings: &Vec<ProfileListing>,
) -> (r: DoctorReport)
    ensures
        r.deep_view() == doctor_report(
            env.deep_view(),
            forks@,
            records.deep_view(),
            *tree,
            *snapshot,
            listings.deep_view(),
        ),
{
    let mut lines = two(
        cat2("forks_dir: ", forks_dir(env).as_str()),
        cat2("managed_forks: ", usize_text(forks.len()).as_str()),
    );
    let (fork_lines, broken) = examine_forks(forks, env, records);
    let ghost first = lines.deep_view();
    let ghost second = fork_lines.deep_view();
    assert(second.len() == fork_lines@.len());
    push_lines(&mut lines, fork_lines);
    assert(lines.deep_view().len() == lines@.len());
    assert(broken <= lines@.len());
    let entries = match record_entries(env, tree) {
        Ok(entries) => entries,
        Err(error) => {
            return DoctorReport { lines, failure: Some(error.message) };
        },
    };
    assert(entries.deep_view().len() == entries@.len());
    let mut part = two(
        cat2("activations_dir: ", activations_dir(env).as_str()),
        cat2("activation_records: ", usize_text(entries.len()).as_str()),
    );
    let (entry_lines, found) = examine_entries(&entries, snapshot, listings);
    assert(entry_lines.deep_view().len() == entry_lines@.len());
    push_lines(&mut part, entry_lines);
    assert(part.deep_view().len() == part@.len());
    assert(found <= part@.len());
    let ghost sizes = (lines@.len(), part@.len());
    push_lines(&mut lines, part);
    assert(lines.deep_view().len() == lines@.len());
    let total = lines.len();
    assert(total == sizes.0 + sizes.1);
    let problems = broken + found;
    if problems == 0 {
        push_lines(&mut lines, one("doctor: ok".to_owned()));
        DoctorReport { lines, failure: None }
    } else {
        let count = usize_text(problems);
        push_lines(&mut lines, one(cat3("doctor: ", count.as_str(), " problem(s)")));
        DoctorReport {
            lines,
            failure: Some(cat3("doctor found ", count.as_str(), " problem(s)")),
        }
    }
}

proof fn lemma_no_broken_fork(
    forks: Seq<ForkHealth>,
    p: Result<PathsView, Text>,
    records: Seq<RecordFactsView>,
)
    ensures
        (broken_forks(forks, p, records) == 0) == (forall|i: int|
            0 <= i < forks.len() ==> activity(#[trigger] forks[i], p, records) is Ok),
    decreases forks.len(),
{
    if forks.len() > 0 {
        let front = forks.drop_last();
        lemma_no_broken_fork(front, p, records);
        assert(forks.last() == forks[forks.len() - 1]);
        if broken_forks(forks, p, records) == 0 {
            assert forall|i: int| 0 <= i < forks.len() implies activity(
                #[trigger] forks[i],
                p,
                records,
            ) is Ok by {
                if i < front.len() {
                    assert(front[i] == forks[i]);
                }
            }
        } else if broken_forks(front, p, records) > 0 {
            let i = choose|i: int|
                0 <= i < front.len() && activity(#[trigger] front[i], p, records) is Err;
            assert(forks[i] == front[i]);
        }
    }
}

proof fn lemma_no_problem(
    entries: Seq<EntryView>,
    snapshot: Snapshot,
    listings: Seq<ListingView>,
)
    ensures
        (entries_problems(entries, snapshot, listings) == 0) == (forall|i: int|
            0 <= i < entries.len() ==> entry_problems(
                #[trigger] entries[i],
                snapshot,
                listings,
            ).len() == 0),
    decreases entries.len(),
{
    if entries.len() > 0 {
        let front = entries.drop_last();
        lemma_no_problem(front, snapshot, listings);
        assert(entries.last() == entries[entries.len() - 1]);
        if entries_problems(entries, snapshot, listings) == 0 {
            assert forall|i: int| 0 <= i < entries.len() implies entry_problems(
                #[trigger] entries[i],
                snapshot,
                listings,
            ).len() == 0 by {
                if i < front.len() {
                    assert(front[i] == entries[i]);
                }
            }
        } else if entries_problems(front, snapshot, listings) > 0 {
            let i = choose|i: int|
                0 <= i < front.len() && entry_problems(
                    #[trigger] front[i],
                    snapshot,
                    listings,
                ).len() != 0;
            assert(entries[i] == front[i]);
        }
    }
}

/// The doctor is content just where the activations can be listed, each fork's activity is
/// known, and each record can be read and describes an intact activation.
pub proof fn the_doctor_is_content_when_all_is_in_order(
    env: EnvironmentView,
    forks: Seq<ForkHealth>,
    records: Seq<RecordFactsView>,
    tree: Option<RecordTree>,
    snapshot: Snapshot,
    listings: Seq<ListingView>,
)
    ensures
        (doctor_report(env, forks, records, tree, snapshot, listings).failure is None) == (
        recorded(env, tree) matches Ok(entries) && (forall|i: int|
            0 <= i < forks.len() ==> activity(
                #[trigger] forks[i],
                keys::paths_from(env),
                records,
            ) is Ok) && (forall|i: int|
            0 <= i < entries.len() ==> ((#[trigger] entries[i]) matches EntryView::Valid {
                record,
                ..
            } && check::activation_intact(record, snapshot, listings)))),
{
    lemma_no_broken_fork(forks, keys::paths_from(env), records);
    if let Ok(entries) = recorded(env, tree) {
        lemma_no_problem(entries, snapshot, listings);
        assert forall|i: int| 0 <= i < entries.len() implies (entry_problems(
            #[trigger] entries[i],
            snapshot,
            listings,
        ).len() == 0) == (entries[i] matches EntryView::Valid { record, .. }
            && check::activation_intact(record, snapshot, listings)) by {
            if let EntryView::Valid { record, .. } = entries[i] {
                check::a_clean_check_means_an_intact_activation(record, snapshot, listings);
            }
        }
    }
}

// ---- Disabling all

/// What came of disabling one recorded activation: the lines to print, or the complaint.
pub struct EntryReport {
    pub lines: Vec<String>,
    pub complaint: Option<String>,
}

pub struct EntryReportView {
    pub lines: Seq<Text>,
    pub complaint: Option<Text>,
}

impl DeepView for EntryReport {
    type V = EntryReportView;

    open spec fn deep_view(&self) -> EntryReportView {
        EntryReportView { lines: self.lines.deep_view(), complaint: self.complaint.deep_view() }
    }
}

pub open spec fn entry_report(entry: EntryView, failure: Option<Text>, dry_run: bool) -> EntryReportView {
    match entry {
        EntryView::Broken { path, problem } => EntryReportView {
            lines: Seq::empty(),
            complaint: Some(
                "failed to read activation record "@ + path + ": "@ + problem,
            ),
        },
        EntryView::Valid { record, .. } => if dry_run {
            EntryReportView { lines: reports::disable_lines_of(record, true), complaint: None }
        } else {
            match failure {
                None => EntryReportView {
                    lines: reports::disable_lines_of(record, false),
                    complaint: None,
                },
                Some(failure) => EntryReportView {
                    lines: Seq::empty(),
                    complaint: Some("failed to disable "@ + record.package + ": "@ + failure),
                },
            }
        },
    }
}

/// Tells of one recorded activation that was to be disabled; `failure` says why it could
/// not be.
pub fn disabled_entry(entry: &ActivationRecordEntry, failure: &Option<String>, dry_run: bool) -> (r:
    EntryReport)
    ensures
        r.deep_view() == entry_report(entry.deep_view(), failure.deep_view(), dry_run),
{
    let none: Vec<String> = Vec::new();
    assert(none.deep_view() =~= Seq::empty());
    match entry {
        ActivationRecordEntry::Broken { path, problem } => EntryReport {
            lines: none,
            complaint: Some(
                cat4("failed to read activation record ", path.as_str(), ": ", problem.as_str()),
            ),
        },
        ActivationRecordEntry::Valid { record, .. } => {
            if dry_run {
                return EntryReport { lines: disable_lines(record, true), complaint: None };
            }
            match failure {
                None => EntryReport { lines: disable_lines(record, false), complaint: None },
                Some(failure) => EntryReport {
                    lines: none,
                    complaint: Some(
                        cat4("failed to disable ", record.package.as_str(), ": ", failure.as_str()),
                    ),
                },
            }
        },
    }
}

pub open spec fn complaints_in(reports: Seq<EntryReportView>) -> nat
    decreases reports.len(),
{
    if reports.len() == 0 {
        0
    } else {
        complaints_in(reports.drop_last()) + if reports.last().complaint is Some {
            1nat
        } else {
            0nat
        }
    }
}

/// How disabling all ends: the lines left to print, or the failure.
pub open spec fn disable_all_of(reports: Seq<EntryReportView>) -> Result<Seq<Text>, Text> {
    if reports.len() == 0 {
        Ok(seq!["no active forks"@])
    } else if complaints_in(reports) > 0 {
        Err(
            number::decimal(complaints_in(reports)) + " activation(s) could not be disabled"@,
        )
    } else {
        Ok(Seq::empty())
    }
}

pub fn disable_all(reports: &Vec<EntryReport>) -> (r: Result<Vec<String>, Error>)
    ensures
        text::outcome(r) == disable_all_of(reports.deep_view()),
{
    let ghost all = reports.deep_view();
    if reports.len() == 0 {
        return Ok(one("no active forks".to_owned()));
    }
    let mut failures: usize = 0;
    let mut i: usize = 0;
    while i < reports.len()
        invariant
            i <= reports@.len(),
            all == reports.deep_view(),
            all.len() == reports@.len(),
            failures == complaints_in(all.take(i as int)),
            failures <= i,
        decreases reports@.len() - i,
    {
        assert(all.take(i + 1).drop_last() =~= all.take(i as int));
        assert(all.take(i + 1).last() == reports@[i as int].deep_view());
        if reports[i].complaint.is_some() {
            failures += 1;
        }
        i += 1;
    }
    assert(all.take(all.len() as int) =~= all);
    if failures > 0 {
        return Err(
            fail(cat2(usize_text(failures).as_str(), " activation(s) could not be disabled")),
        );
    }
    let none: Vec<String> = Vec::new();
    assert(none.deep_view() =~= Seq::empty());
    Ok(none)
}

} // verus!
