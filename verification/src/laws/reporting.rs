//! What the user is told.
use vstd::prelude::*;

use crate::activation::check;
use crate::activation::profiles::ListingView;
use crate::activation::records::{LinkView, RecordView};
use crate::backends::{self, ActivationBackend};
use crate::doctor::{self, EntryReportView};
use crate::forking::{self, ForkPlanView};
use crate::git::RepoView;
use crate::metadata::MetadataView;
use crate::number;
use crate::reports::{self, Style, SwitchStepView};
use crate::sharing::{self, ShareView};
use crate::snapshot::Snapshot;
use crate::text::{self, Text};
use crate::workspace::{EnvironmentView, WorkspaceView};

verus! {

// ---- Status

/// A fork's status begins with its name and tells whether it is active: not without a record,
/// yes where the activation is intact, and broken, with a reason for each problem, where it is
/// not. It ends with where its source stands.
pub proof fn the_status_tells_whether_a_fork_is_active(
    m: MetadataView,
    w: WorkspaceView,
    repo: RepoView,
    active: Option<RecordView>,
    snapshot: Snapshot,
    listings: Seq<ListingView>,
)
    ensures
        ({
            let lines = reports::status_lines_of(m, w, repo, active, snapshot, listings);
            let n = lines.len() as int;
            &&& n >= 9
            &&& lines[0] == "fork: "@ + reports::reference_in(m)
            &&& active is None ==> lines[1] == "active: no"@ && n == 9
            &&& active matches Some(record) ==> {
                let problems = check::record_problems(record, snapshot, listings);
                &&& check::activation_intact(record, snapshot, listings) ==> lines[1]
                    == "active: yes"@ && lines[2] == "verified: yes"@ && lines[3] == "mode: "@
                    + record.mode && lines[4] == "output: "@ + record.build_output
                &&& !check::activation_intact(record, snapshot, listings) ==> lines[1]
                    == "active: broken"@ && lines[2] == "verified: no"@ && forall|i: int|
                    0 <= i < problems.len() ==> lines[3 + i] == "reason: "@ + #[trigger] problems[i]
            }
            &&& lines[n - 7] == "workspace: "@ + w.root
            &&& lines[n - 6] == "source: "@ + w.source
            &&& lines[n - 5] == "fork_point: "@ + repo.base_commit
            &&& lines[n - 4] == "head: "@ + repo.head_commit
            &&& repo.commits_on_top matches Some(count) ==> lines[n - 3] == "commits_on_top: "@
                + number::decimal(count as nat)
            &&& repo.commits_on_top is None ==> lines[n - 3] == "commits_on_top: unknown"@
            &&& lines[n - 2] == (if repo.dirty {
                "dirty: yes"@
            } else {
                "dirty: no"@
            })
            &&& lines[n - 1] == (if repo.base_commit_present {
                "base_commit_present: yes"@
            } else {
                "base_commit_present: no"@
            })
        }),
{
    lemma_yes_and_no();
    let lines = reports::status_lines_of(m, w, repo, active, snapshot, listings);
    let n = lines.len() as int;
    let tail = reports::source_lines(w, repo);
    assert(tail.len() == 7);
    assert forall|i: int| 0 <= i < 7 implies lines[n - 7 + i] == #[trigger] tail[i] by {
    }
    assert(lines[n - 7] == tail[0] && lines[n - 6] == tail[1] && lines[n - 5] == tail[2] && lines[n
        - 4] == tail[3] && lines[n - 3] == tail[4] && lines[n - 2] == tail[5] && lines[n - 1]
        == tail[6]);
    if let Some(record) = active {
        let problems = check::record_problems(record, snapshot, listings);
        check::a_clean_check_means_an_intact_activation(record, snapshot, listings);
        let health = reports::health_lines(problems);
        let body = reports::activation_lines(record, problems);
        assert forall|i: int| 0 <= i < health.len() implies body[i] == #[trigger] health[i] by {
        }
        assert forall|i: int| 0 <= i < body.len() implies lines[1 + i] == #[trigger] body[i] by {
        }
        assert(lines[1] == body[0] && lines[2] == body[1]);
        assert(body[0] == health[0] && body[1] == health[1]);
        if problems.len() == 0 {
            assert(body[2] == "mode: "@ + record.mode);
            assert(body[3] == "output: "@ + record.build_output);
            assert(lines[3] == body[2] && lines[4] == body[3]);
        } else {
            let reasons = reports::labelled_all("reason: "@, problems);
            assert forall|i: int| 0 <= i < problems.len() implies lines[3 + i] == "reason: "@
                + #[trigger] problems[i] by {
                assert(reasons[i] == "reason: "@ + problems[i]);
                assert(health[2 + i] == reasons[i]);
                assert(body[2 + i] == health[2 + i]);
                assert(lines[1 + (2 + i)] == body[2 + i]);
            }
        }
    }
}

proof fn lemma_yes_and_no()
    ensures
        "dirty: "@ + "yes"@ == "dirty: yes"@,
        "dirty: "@ + "no"@ == "dirty: no"@,
        "base_commit_present: "@ + "yes"@ == "base_commit_present: yes"@,
        "base_commit_present: "@ + "no"@ == "base_commit_present: no"@,
        "commits_on_top: "@ + "unknown"@ == "commits_on_top: unknown"@,
{
    reveal_strlit("yes");
    reveal_strlit("no");
    reveal_strlit("unknown");
    reveal_strlit("dirty: ");
    reveal_strlit("dirty: yes");
    reveal_strlit("dirty: no");
    reveal_strlit("base_commit_present: ");
    reveal_strlit("base_commit_present: yes");
    reveal_strlit("base_commit_present: no");
    reveal_strlit("commits_on_top: ");
    reveal_strlit("commits_on_top: unknown");
    assert("dirty: "@ + "yes"@ =~= "dirty: yes"@);
    assert("dirty: "@ + "no"@ =~= "dirty: no"@);
    assert("base_commit_present: "@ + "yes"@ =~= "base_commit_present: yes"@);
    assert("base_commit_present: "@ + "no"@ =~= "base_commit_present: no"@);
    assert("commits_on_top: "@ + "unknown"@ =~= "commits_on_top: unknown"@);
}

// ---- Activations

/// An activation is told by its fork, its mode and its output, with every link and where it
/// leads; a trial run says that it would be made.
pub proof fn activations_are_told(record: RecordView, dry_run: bool, env: EnvironmentView, i: int)
    ensures
        ({
            let lines = reports::enable_lines_of(record, dry_run, env);
            &&& lines.len() >= 3
            &&& dry_run ==> lines[0] == "would enable: "@ + record.package
            &&& !dry_run ==> lines[0] == "enabled: "@ + record.package
            &&& lines[1] == "mode: "@ + record.mode
            &&& lines[2] == "output: "@ + record.build_output
            &&& 0 <= i < record.links.len() ==> lines.contains(
                (if dry_run {
                    "would create: "@
                } else {
                    "link: "@
                }) + record.links[i].link + " -> "@ + record.links[i].target,
            )
        }),
{
    let style = Style::Enable { dry_run };
    let lines = reports::enable_lines_of(record, dry_run, env);
    let head = seq![
        (if dry_run {
            "would enable: "@
        } else {
            "enabled: "@
        }) + record.package,
        "mode: "@ + record.mode,
        "output: "@ + record.build_output,
    ];
    assert(lines[0] == head[0] && lines[1] == head[1] && lines[2] == head[2]);
    if 0 <= i < record.links.len() {
        let link = record.links[i];
        let told = (if dry_run {
            "would create: "@
        } else {
            "link: "@
        }) + link.link + " -> "@ + link.target;
        let own = reports::enabled_link(link, dry_run);
        assert(own.contains(told)) by {
            if dry_run && link.previous is BackedUp {
                assert(own[2] == told);
            } else {
                assert(own[0] == told);
            }
        }
        let f = |item: LinkView|
            <crate::activation::records::LinkRecord as reports::Reported>::lines(style, item);
        assert(f(link) == own);
        text::lemma_flat_map_contains(record.links, f, i, told);
        let all = reports::all_lines::<crate::activation::records::LinkRecord>(style, record.links);
        assert(all == text::flat_map(record.links, f));
        let k = choose|k: int| 0 <= k < all.len() && all[k] == told;
        assert(lines[3 + k] == told);
    }
}

/// Undoing an activation is told by its fork, with every link and what is restored in its
/// place; a trial run says that it would be done.
pub proof fn deactivations_are_told(record: RecordView, dry_run: bool, i: int)
    ensures
        ({
            let lines = reports::disable_lines_of(record, dry_run);
            &&& lines.len() >= 1
            &&& dry_run ==> lines[0] == "would disable: "@ + record.package
            &&& !dry_run ==> lines[0] == "disabled: "@ + record.package
            &&& 0 <= i < record.links.len() ==> {
                &&& dry_run ==> lines.contains("would remove: "@ + record.links[i].link)
                &&& dry_run && record.links[i].previous is BackedUp ==> lines.contains(
                    "would restore: "@ + record.links[i].previous->backup + " -> "@
                        + record.links[i].link,
                )
                &&& !dry_run && record.links[i].previous is BackedUp ==> lines.contains(
                    "restored: "@ + record.links[i].link,
                )
                &&& !dry_run && record.links[i].previous is Absent ==> lines.contains(
                    "removed: "@ + record.links[i].link,
                )
            }
        }),
{
    let style = Style::Disable { dry_run };
    let lines = reports::disable_lines_of(record, dry_run);
    let head = seq![
        (if dry_run {
            "would disable: "@
        } else {
            "disabled: "@
        }) + record.package,
    ];
    assert(lines[0] == head[0]);
    if 0 <= i < record.links.len() {
        let link = record.links[i];
        let own = reports::disabled_link(link, dry_run);
        let f = |item: LinkView|
            <crate::activation::records::LinkRecord as reports::Reported>::lines(style, item);
        let all = reports::all_lines::<crate::activation::records::LinkRecord>(style, record.links);
        assert(all == text::flat_map(record.links, f));
        assert(f(link) == own);
        assert forall|j: int| 0 <= j < own.len() implies lines.contains(#[trigger] own[j]) by {
            assert(own.contains(own[j]));
            text::lemma_flat_map_contains(record.links, f, i, own[j]);
            let k = choose|k: int| 0 <= k < all.len() && all[k] == own[j];
            assert(lines[1 + k] == own[j]);
        }
        assert(lines.contains(own[0]));
        if own.len() > 1 {
            assert(lines.contains(own[1]));
        }
    }
}

/// A trial run never switches, and nothing is switched that was not asked for; what is run is
/// the backend's command, with the flake that was given.
pub proof fn trial_runs_switch_nothing(
    backend: ActivationBackend,
    switch: bool,
    flake: Option<Text>,
    dry_run: bool,
)
    ensures
        reports::switch_step_of(backend, switch, flake, dry_run) matches Ok(
            SwitchStepView::Run { command, .. },
        ) ==> !dry_run && switch && backends::switch_of(backend, flake) == Ok::<
            backends::SwitchView,
            Text,
        >(command),
        !switch ==> reports::switch_step_of(backend, switch, flake, dry_run) == Ok::<
            SwitchStepView,
            Text,
        >(SwitchStepView::Nothing),
        switch && !dry_run && backends::switch_of(backend, flake) is Ok ==> (
        reports::switch_step_of(backend, switch, flake, dry_run) matches Ok(
            SwitchStepView::Run { .. },
        )),
{
}

// ---- Sharing and forking

/// An export is told by what the artifact says.
pub proof fn exports_are_told(
    output: Text,
    taken: bool,
    m: MetadataView,
    repo: RepoView,
    base_tree: Text,
)
    ensures
        sharing::export_of(output, taken, m, repo, base_tree) matches Ok(export) ==> {
            let lines = reports::export_lines_of(export.summary);
            &&& lines.len() == 4
            &&& lines[0] == "exported: "@ + output
            &&& lines[1] == "base_commit: "@ + export.share.changes.base_commit
            &&& lines[2] == "head: "@ + export.share.changes.head_commit
            &&& lines[3] == "commits: "@ + number::decimal(
                export.share.changes.commit_count as nat,
            )
        },
{
}

/// An import is told by its artifact and method, the fork's base commit, the head that the
/// repository has now, and the number of commits in the artifact.
pub proof fn imports_are_told(
    artifact: Text,
    method: Text,
    m: MetadataView,
    head: Text,
    share: ShareView,
)
    ensures
        ({
            let lines = reports::import_lines_of(
                sharing::import_summary_of(artifact, method, m, head, share),
            );
            &&& lines.len() == 5
            &&& lines[0] == "imported: "@ + artifact
            &&& lines[1] == "method: "@ + method
            &&& lines[2] == "base_commit: "@ + m.base.git_commit
            &&& lines[3] == "head: "@ + head
            &&& lines[4] == "commits: "@ + number::decimal(share.changes.commit_count as nat)
        }),
{
}

/// A patch that was applied is told by where it came from and where the repository stands.
pub proof fn applied_patches_are_told(patch: Text, from_stdin: bool, repo: RepoView)
    ensures
        ({
            let lines = reports::apply_lines_of(patch, from_stdin, repo);
            &&& lines.len() == 5
            &&& !from_stdin ==> lines[0] == "applied: "@ + patch
            &&& from_stdin ==> lines[0] == "applied: stdin"@
            &&& lines[2] == "base_commit: "@ + repo.base_commit
            &&& lines[3] == "head: "@ + repo.head_commit
        }),
{
    reveal_strlit("applied: ");
    reveal_strlit("stdin");
    reveal_strlit("applied: stdin");
    assert("applied: "@ + "stdin"@ =~= "applied: stdin"@);
}

/// A new fork is told by where it is, how it is selected, its source, its base commit and its
/// output.
pub proof fn new_forks_are_told(plan: ForkPlanView, w: WorkspaceView, base_commit: Text, output: Text)
    ensures
        ({
            let lines = forking::fork_lines_of(plan, w, base_commit, output);
            &&& lines.len() == 5
            &&& lines[0] == "workspace: "@ + w.root
            &&& lines[1] == "fork: "@ + forking::reference_of(plan.name, plan.label)
            &&& lines[2] == "source: "@ + w.source
            &&& lines[3] == "base_commit: "@ + base_commit
            &&& lines[4] == "output: "@ + output
        }),
{
}

/// A fork's description tells what its metadata says.
pub proof fn descriptions_tell_of_the_fork(m: MetadataView, w: WorkspaceView)
    ensures
        ({
            let lines = reports::info_lines_of(m, w);
            let n = lines.len() as int;
            &&& lines.contains("label: "@ + m.fork.label)
            &&& lines.contains("reference: "@ + reports::reference_in(m))
            &&& lines.contains("installable: "@ + m.package.installable)
            &&& lines.contains("attribute: "@ + m.package.attribute)
            &&& lines.contains("system: "@ + m.package.system)
            &&& lines.contains("drv: "@ + m.base.derivation)
            &&& lines.contains("original_output: "@ + m.base.output)
            &&& lines[n - 4] == "post_patch_source: "@ + m.base.post_patch_source
            &&& lines[n - 3] == "base_commit: "@ + m.base.git_commit
            &&& lines[n - 2] == "workspace: "@ + w.root
            &&& lines[n - 1] == "source: "@ + w.source
        }),
{
    let lines = reports::info_lines_of(m, w);
    let n = lines.len() as int;
    let package = reports::package_lines(m);
    let revision = crate::listing::if_present("nixpkgs_revision: "@, m.base.nixpkgs_revision);
    let url = crate::listing::if_present("nixpkgs_resolved_url: "@, m.base.nixpkgs_resolved_url);
    let base = reports::base_lines(m);
    let k = package.len() as int;
    assert(lines[k - 5] == package[k - 5] && lines[k - 4] == package[k - 4] && lines[k - 3]
        == package[k - 3] && lines[k - 2] == package[k - 2] && lines[k - 1] == package[k - 1]);
    assert(package[k - 5] == "label: "@ + m.fork.label);
    assert(package[k - 4] == "reference: "@ + reports::reference_in(m));
    assert(package[k - 3] == "installable: "@ + m.package.installable);
    assert(package[k - 2] == "attribute: "@ + m.package.attribute);
    assert(package[k - 1] == "system: "@ + m.package.system);
    let b = k + revision.len() + url.len();
    assert(lines[b] == base[0] && lines[b + 1] == base[1]);
    let e = base.len() as int;
    assert(base[e - 1] == "base_commit: "@ + m.base.git_commit);
    assert(base[e - 2] == "post_patch_source: "@ + m.base.post_patch_source);
    assert(lines[b + e - 1] == base[e - 1] && lines[b + e - 2] == base[e - 2]);
    assert(n == b + e + 2);
}

// ---- The doctor

/// The doctor tells of every fork and every recorded activation, and ends with its finding: it
/// is content just where nothing failed.
pub proof fn the_doctor_ends_with_its_finding(
    env: EnvironmentView,
    forks: Seq<doctor::ForkHealth>,
    records: Seq<crate::activation::store::RecordFactsView>,
    tree: Option<crate::activation::store::RecordTree>,
    snapshot: Snapshot,
    listings: Seq<ListingView>,
)
    ensures
        ({
            let report = doctor::doctor_report(env, forks, records, tree, snapshot, listings);
            let n = forks.len() as int;
            &&& report.lines.len() >= 2 + n
            &&& report.lines[0] == "forks_dir: "@ + crate::workspace::forks_dir_of(env)
            &&& report.lines[1] == "managed_forks: "@ + number::decimal(forks.len())
            &&& forall|i: int|
                0 <= i < n ==> #[trigger] report.lines[2 + i] == doctor::fork_line(
                    forks[i],
                    crate::activation::keys::paths_from(env),
                    records,
                )
            &&& doctor::recorded(env, tree) matches Ok(entries) ==> {
                &&& (report.lines.last() == "doctor: ok"@) == (report.failure is None)
                &&& report.lines[2 + n] == "activations_dir: "@
                    + crate::activation::keys::activations_dir_of(env)
                &&& report.lines[3 + n] == "activation_records: "@ + number::decimal(entries.len())
            }
        }),
{
    let report = doctor::doctor_report(env, forks, records, tree, snapshot, listings);
    let n = forks.len() as int;
    let p = crate::activation::keys::paths_from(env);
    let part = doctor::forks_part(env, forks, records);
    let own = doctor::fork_lines_of(forks, p, records);
    assert(part.len() == 2 + n);
    assert forall|i: int| 0 <= i < part.len() implies report.lines[i] == #[trigger] part[i] by {
    }
    assert(part[0] == report.lines[0] && part[1] == report.lines[1]);
    assert forall|i: int| 0 <= i < n implies #[trigger] report.lines[2 + i] == doctor::fork_line(
        forks[i],
        p,
        records,
    ) by {
        assert(own[i] == doctor::fork_line(forks[i], p, records));
        assert(part[2 + i] == own[i]);
    }
    if let Ok(entries) = doctor::recorded(env, tree) {
        let next = doctor::activations_part(env, entries, snapshot, listings);
        assert(report.lines[2 + n] == next[0]);
        assert(report.lines[3 + n] == next[1]);
        let problems = doctor::broken_forks(forks, p, records) + doctor::entries_problems(
            entries,
            snapshot,
            listings,
        );
        assert(report.lines.last() == doctor::verdict(problems));
        if problems != 0 {
            reveal_strlit("doctor: ok");
            reveal_strlit("doctor: ");
            let line = report.lines.last();
            lemma_digits_first(problems);
            assert(line[8] == number::decimal(problems)[0]);
            assert("doctor: ok"@[8] == 'o');
        }
    }
}

proof fn lemma_digits_first(n: nat)
    ensures
        number::decimal(n).len() > 0,
        '0' <= number::decimal(n)[0] <= '9',
    decreases n,
{
    if n >= 10 {
        lemma_digits_first(n / 10);
    }
}

// ---- Disabling all

proof fn lemma_complaints(told: Seq<EntryReportView>)
    ensures
        (doctor::complaints_in(told) == 0) == (forall|i: int|
            0 <= i < told.len() ==> (#[trigger] told[i]).complaint is None),
    decreases told.len(),
{
    if told.len() > 0 {
        let front = told.drop_last();
        lemma_complaints(front);
        assert(told[told.len() - 1] == told.last());
        if forall|i: int| 0 <= i < told.len() ==> (#[trigger] told[i]).complaint is None {
            assert forall|i: int| 0 <= i < front.len() implies (#[trigger] front[i]).complaint
                is None by {
                assert(front[i] == told[i]);
            }
        }
        if doctor::complaints_in(told) == 0 {
            assert forall|i: int| 0 <= i < told.len() implies (#[trigger] told[i]).complaint
                is None by {
                if i < front.len() {
                    assert(told[i] == front[i]);
                }
            }
        }
    }
}

/// Disabling all forks succeeds just where none of them gave cause for complaint.
pub proof fn disabling_all_succeeds_without_complaints(told: Seq<EntryReportView>)
    ensures
        (doctor::disable_all_of(told) is Ok) == (forall|i: int|
            0 <= i < told.len() ==> (#[trigger] told[i]).complaint is None),
{
    lemma_complaints(told);
}

/// A record that cannot be read, and a fork that could not be disabled, give cause for
/// complaint; a trial run of a readable one never does.
pub proof fn failures_are_complained_of(
    entry: crate::activation::records::EntryView,
    failure: Option<Text>,
    dry_run: bool,
)
    ensures
        (doctor::entry_report(entry, failure, dry_run).complaint is Some) == (entry is Broken
            || !dry_run && failure is Some),
        entry matches crate::activation::records::EntryView::Valid { record, .. } ==> (dry_run
            || failure is None ==> doctor::entry_report(entry, failure, dry_run).lines
            == reports::disable_lines_of(record, dry_run)),
{
}

} // verus!
