//! Which forks are active, where that is kept, and how forks are listed.
use vstd::prelude::*;

use crate::activation::keys::{self, PathsView};
use crate::activation::records::RecordView;
use crate::activation::store::{self, RecordFactsView, RecordFileView};
use crate::command::CommandView;
use crate::git::{self, RepoView};
use crate::laws::literals;
use crate::listing::{self, ForkEntryView, ForkFacts, ListView};
use crate::metadata::{self, MetadataView};
use crate::paths;
use crate::snapshot::TargetKind;
use crate::text::{self, Text};
use crate::workspace::{self, EnvironmentView, WorkspaceView, DEFAULT_LABEL};

verus! {

// ---- Where things are kept

proof fn lemma_below(base: Text, name: Text)
    requires
        base.len() > 0,
        name.len() > 1,
        literals::free_from(name, '/', 0),
    ensures
        paths::components(paths::joined(base, name)) == paths::components(base) + seq![name],
        paths::joined(base, name).len() > 0,
{
    literals::lemma_free(name, '/');
    if paths::absolute(name) {
        assert(name.contains(name[0]));
    }
    paths::lemma_entry_name_pieces(name);
    paths::lemma_joined_components(base, name);
}

proof fn lemma_known_names()
    ensures
        literals::free_from(".local"@, '/', 0) && ".local"@.len() > 1,
        literals::free_from("bin"@, '/', 0) && "bin"@.len() > 1,
        literals::free_from("share"@, '/', 0) && "share"@.len() > 1,
        literals::free_from("state"@, '/', 0) && "state"@.len() > 1,
        literals::free_from("forkpkg"@, '/', 0) && "forkpkg"@.len() > 1,
        literals::free_from("forks"@, '/', 0) && "forks"@.len() > 1,
        literals::free_from("activations"@, '/', 0) && "activations"@.len() > 1,
        literals::free_from(".config"@, '/', 0) && ".config"@.len() > 1,
{
    reveal_strlit(".local");
    reveal_strlit("bin");
    reveal_strlit("share");
    reveal_strlit("state");
    reveal_strlit("forkpkg");
    reveal_strlit("forks");
    reveal_strlit("activations");
    reveal_strlit(".config");
    reveal_with_fuel(literals::free_from, 13);
}

/// Whether a variable of the environment holds an absolute path.
pub open spec fn is_given(value: Option<Text>) -> bool {
    value matches Some(path) && paths::absolute(path)
}

/// Links go below the home directory, configuration and state below the directories that the
/// environment gives for them, and below the home directory where it gives none. Without an
/// absolute home directory nothing is activated.
pub proof fn activations_are_kept_below_home(env: EnvironmentView)
    ensures
        (keys::paths_from(env) is Ok) == is_given(env.home),
        keys::paths_from(env) matches Ok(p) ==> {
            let home = paths::components(env.home->0);
            &&& paths::components(p.user_bin_dir) == home + seq![".local"@, "bin"@]
            &&& is_given(env.xdg_config_home) ==> p.user_config_dir == env.xdg_config_home->0
            &&& !is_given(env.xdg_config_home) ==> paths::components(p.user_config_dir) == home
                + seq![".config"@]
            &&& is_given(env.xdg_state_home) ==> paths::components(p.activations_dir)
                == paths::components(env.xdg_state_home->0) + seq!["forkpkg"@, "activations"@]
            &&& !is_given(env.xdg_state_home) ==> paths::components(p.activations_dir) == home
                + seq![".local"@, "state"@, "forkpkg"@, "activations"@]
        },
{
    lemma_known_names();
    if let Ok(p) = keys::paths_from(env) {
        let home = env.home->0;
        assert(home.len() > 0);
        lemma_below(home, ".local"@);
        let local = paths::joined(home, ".local"@);
        lemma_below(local, "bin"@);
        lemma_below(home, ".config"@);
        lemma_below(local, "state"@);
        let state = workspace::state_home_of(env);
        lemma_below(state, "forkpkg"@);
        lemma_below(paths::joined(state, "forkpkg"@), "activations"@);
        let all = paths::components(home);
        assert(paths::components(p.user_bin_dir) =~= all + seq![".local"@, "bin"@]);
        assert(paths::components(p.activations_dir) =~= paths::components(state) + seq![
            "forkpkg"@,
            "activations"@,
        ]);
        if !is_given(env.xdg_state_home) {
            assert(paths::components(p.activations_dir) =~= all + seq![
                ".local"@,
                "state"@,
                "forkpkg"@,
                "activations"@,
            ]);
        }
    }
}

/// Forks go below the data directory that the environment gives, and else below the home
/// directory.
pub proof fn forks_are_kept_below_home(env: EnvironmentView)
    ensures
        is_given(env.xdg_data_home) ==> paths::components(workspace::forks_dir_of(env))
            == paths::components(env.xdg_data_home->0) + seq!["forkpkg"@, "forks"@],
        !is_given(env.xdg_data_home) && is_given(env.home) ==> paths::components(
            workspace::forks_dir_of(env),
        ) == paths::components(env.home->0) + seq![".local"@, "share"@, "forkpkg"@, "forks"@],
{
    lemma_known_names();
    reveal_strlit(".");
    let home = workspace::home_of(env);
    lemma_below(home, ".local"@);
    let local = paths::joined(home, ".local"@);
    lemma_below(local, "share"@);
    let data = workspace::data_home_of(env);
    lemma_below(data, "forkpkg"@);
    lemma_below(paths::joined(data, "forkpkg"@), "forks"@);
    assert(paths::components(workspace::forks_dir_of(env)) =~= paths::components(data) + seq![
        "forkpkg"@,
        "forks"@,
    ]);
    if !is_given(env.xdg_data_home) && is_given(env.home) {
        assert(paths::components(workspace::forks_dir_of(env)) =~= paths::components(env.home->0)
            + seq![".local"@, "share"@, "forkpkg"@, "forks"@]);
    }
}

// ---- Keys

/// Forks with one key are forks of packages with one key, under one label: so no two labels
/// of a package share a record.
pub proof fn keys_tell_labels_apart(a: MetadataView, b: MetadataView)
    requires
        keys::fork_key_of(a) == keys::fork_key_of(b),
    ensures
        keys::package_key_of(a) == keys::package_key_of(b),
        workspace::sanitized(a.fork.label) == workspace::sanitized(b.fork.label),
{
    reveal_strlit("/");
    let whole = keys::fork_key_of(a);
    let x = workspace::sanitized(a.fork.label);
    let y = workspace::sanitized(b.fork.label);
    let p = keys::package_key_of(a).len() as int;
    let q = keys::package_key_of(b).len() as int;
    workspace::sanitized_names_are_plain(a.fork.label);
    workspace::sanitized_names_are_plain(b.fork.label);
    let other = keys::fork_key_of(b);
    assert(whole.len() == p + 1 + x.len());
    assert(other.len() == q + 1 + y.len());
    assert(whole[p] == '/');
    assert(other[q] == '/');
    if p < q {
        assert(whole[p + 1 + (q - p - 1)] == x[q - p - 1]);
        assert(x.contains('/'));
    }
    if q < p {
        assert(other[q + 1 + (p - q - 1)] == y[p - q - 1]);
        assert(y.contains('/'));
    }
    assert(whole.take(p) =~= keys::package_key_of(a));
    assert(whole.take(p) =~= keys::package_key_of(b));
    assert(whole.skip(p + 1) =~= x);
    assert(whole.skip(p + 1) =~= y);
}

/// A package is called by its pname, else by its name, else by its attribute.
pub proof fn packages_are_called_by_name(m: MetadataView)
    ensures
        m.package.pname matches Some(pname) ==> keys::display_name_of(m) == pname,
        m.package.pname is None && m.package.name is Some ==> keys::display_name_of(m)
            == m.package.name->0,
        m.package.pname is None && m.package.name is None ==> keys::display_name_of(m)
            == m.package.attribute,
{
}

/// A fork's record is looked for under its key first, and under no other one unless the fork
/// has the default label.
pub proof fn records_are_looked_for_under_the_key(m: MetadataView, p: PathsView)
    ensures
        keys::record_paths_of(m, p).len() > 0,
        keys::record_paths_of(m, p)[0] == paths::joined(
            paths::joined(p.activations_dir, keys::fork_key_of(m)),
            "activation.toml"@,
        ),
        m.fork.label != "default"@ ==> keys::record_paths_of(m, p).len() == 1,
        m.fork.label == "default"@ ==> {
            &&& keys::record_paths_of(m, p).contains(p.record_path(keys::package_key_of(m)))
            &&& keys::record_paths_of(m, p).contains(
                p.record_path(workspace::sanitized(keys::display_name_of(m))),
            )
        },
{
    let all = keys::record_paths_of(m, p);
    let own = keys::fork_key_of(m);
    let first = keys::with_new(seq![own], keys::package_key_of(m));
    let known = keys::record_keys(m);
    assert(first[0] == own);
    assert(known[0] == own);
    if m.fork.label == DEFAULT_LABEL@ {
        let name = workspace::sanitized(keys::display_name_of(m));
        assert(first.contains(keys::package_key_of(m))) by {
            if seq![own].contains(keys::package_key_of(m)) {
            } else {
                assert(first.last() == keys::package_key_of(m));
            }
        }
        assert(known.contains(keys::package_key_of(m))) by {
            let i = choose|i: int| 0 <= i < first.len() && first[i] == keys::package_key_of(m);
            assert(known[i] == keys::package_key_of(m));
        }
        assert(known.contains(name)) by {
            if !first.contains(name) {
                assert(known.last() == name);
            }
        }
        let i = choose|i: int| 0 <= i < known.len() && known[i] == keys::package_key_of(m);
        assert(all[i] == p.record_path(keys::package_key_of(m)));
        let j = choose|j: int| 0 <= j < known.len() && known[j] == name;
        assert(all[j] == p.record_path(name));
    }
}

// ---- Records

/// Whether facts tell of a record in a file.
pub open spec fn tells_of_record(facts: Seq<RecordFactsView>, path: Text, record: RecordView) -> bool {
    store::facts_for(facts, path) matches Some(found) && found.target == TargetKind::File
        && found.file == (RecordFileView::Parsed { record })
}

/// A fork whose record is where its plan put it is active with that record; whatever stands
/// elsewhere.
pub proof fn enabled_forks_are_active(
    m: MetadataView,
    p: PathsView,
    facts: Seq<RecordFactsView>,
    record: RecordView,
)
    requires
        record.key == keys::fork_key_of(m),
        tells_of_record(facts, p.record_path(record.key), record),
    ensures
        store::status_of(m, p, facts) == Ok::<Option<RecordView>, Text>(Some(record)),
        store::any_exists(keys::record_paths_of(m, p), facts),
{
    records_are_looked_for_under_the_key(m, p);
    reveal_strlit("/");
    assert(record.key.len() > 0);
    let all = keys::record_paths_of(m, p);
    assert(store::record_file(facts, all[0]) is Some);
    assert(store::record_exists(facts, all[0]));
}

/// A fork is not active where none of the files that may hold its record is there.
pub proof fn forks_without_records_are_not_active(
    m: MetadataView,
    p: PathsView,
    facts: Seq<RecordFactsView>,
)
    requires
        forall|i: int|
            0 <= i < keys::record_paths_of(m, p).len() ==> store::record_file(
                facts,
                #[trigger] keys::record_paths_of(m, p)[i],
            ) is None,
    ensures
        store::status_of(m, p, facts) == Ok::<Option<RecordView>, Text>(None),
{
    lemma_no_file(keys::record_paths_of(m, p), facts);
}

proof fn lemma_no_file(places: Seq<Text>, facts: Seq<RecordFactsView>)
    requires
        forall|i: int|
            0 <= i < places.len() ==> store::record_file(facts, #[trigger] places[i]) is None,
    ensures
        store::first_file(places, facts) is None,
    decreases places.len(),
{
    if places.len() > 0 {
        assert(store::record_file(facts, places[0]) is None);
        let rest = places.drop_first();
        assert forall|i: int| 0 <= i < rest.len() implies store::record_file(
            facts,
            #[trigger] rest[i],
        ) is None by {
            assert(rest[i] == places[i + 1]);
        }
        lemma_no_file(rest, facts);
    }
}

/// A record is read as it is, except that one without a key gets its package's name for one.
pub proof fn records_are_read_as_they_are(path: Text, record: RecordView)
    ensures
        store::record_in(path, RecordFileView::Parsed { record }) matches Ok(read) && {
            &&& record.key.len() > 0 ==> read == record
            &&& record.key.len() == 0 ==> read == (RecordView { key: record.package, ..record })
        },
{
}

// ---- Repositories

/// What a repository's state tells is what Git said: the head that it printed, whether it
/// printed any change, whether it knows the base commit, and how many commits it counted.
pub proof fn repositories_are_as_git_says(base_commit: Text, reads: git::RepoReads)
    ensures
        git::repo_of(base_commit, reads) matches Ok(repo) ==> {
            &&& repo.base_commit == base_commit
            &&& reads.head.deep_view() matches CommandView::Printed { stdout } && repo.head_commit
                == text::stripped(stdout)
            &&& reads.status.deep_view() matches CommandView::Printed { stdout } && repo.dirty == (
            text::stripped(stdout).len() > 0)
            &&& repo.base_commit_present == !(reads.base.deep_view() is Exited)
            &&& !(reads.base.deep_view() is NotExecuted)
            &&& repo.commits_on_top is Some == repo.base_commit_present
            &&& repo.commits_on_top matches Some(count) ==> (
            reads.count.deep_view() matches CommandView::Printed { stdout }
                && crate::number::read_count(text::stripped(stdout)) == Ok::<nat, Text>(
                count as nat,
            ))
        },
{
}

/// The commands about a repository run in it; the count is of the commits from the base to
/// the head.
pub proof fn commands_run_in_the_repository(source: Text, base_commit: Text)
    ensures
        git::head_arguments(source) == seq!["-C"@, source, "rev-parse"@, "HEAD"@],
        git::status_arguments(source) == seq!["-C"@, source, "status"@, "--porcelain"@],
        git::base_arguments(source, base_commit).take(2) == seq!["-C"@, source],
        git::base_arguments(source, base_commit).last() == base_commit + "^{commit}"@,
        git::count_arguments(source, base_commit).take(2) == seq!["-C"@, source],
        git::count_arguments(source, base_commit).contains("--count"@),
        git::count_arguments(source, base_commit).last() == base_commit + "..HEAD"@,
{
    assert(git::head_arguments(source) =~= seq!["-C"@, source, "rev-parse"@, "HEAD"@]);
    assert(git::status_arguments(source) =~= seq!["-C"@, source, "status"@, "--porcelain"@]);
    let base = git::base_arguments(source, base_commit);
    let count = git::count_arguments(source, base_commit);
    assert(base.take(2) =~= seq!["-C"@, source]);
    assert(count.take(2) =~= seq!["-C"@, source]);
    assert(count[3] == "--count"@);
}

// ---- The list of forks

/// The list tells of each fork, in their order, what its metadata, its repository and its
/// record tell.
pub proof fn every_fork_is_listed(
    forks: Seq<ForkFacts>,
    p: Result<PathsView, Text>,
    records: Seq<RecordFactsView>,
)
    ensures
        listing::entries_from(forks, p, records) matches Ok(entries) ==> {
            &&& entries.len() == forks.len()
            &&& forall|i: int|
                0 <= i < entries.len() ==> {
                    let entry = #[trigger] entries[i];
                    let w = forks[i].workspace.deep_view();
                    &&& forks[i].metadata.deep_view() matches metadata::MetadataFileView::Parsed {
                        metadata: m,
                    } && {
                        &&& entry.package == keys::display_name_of(m)
                        &&& entry.label == m.fork.label
                        &&& entry.name == m.package.name
                        &&& entry.version == m.package.version
                        &&& entry.installable == m.package.installable
                        &&& entry.attribute == m.package.attribute
                        &&& entry.system == m.package.system
                        &&& entry.workspace == w.root
                        &&& entry.source == w.source
                        &&& entry.fork_point.git_commit == m.base.git_commit
                        &&& entry.fork_point.nixpkgs_revision == m.base.nixpkgs_revision
                        &&& entry.fork_point.nixpkgs_resolved_url == m.base.nixpkgs_resolved_url
                        &&& entry.fork_point.nixpkgs_locked_nar_hash
                            == m.base.nixpkgs_locked_nar_hash
                        &&& entry.fork_point.derivation == m.base.derivation
                        &&& entry.fork_point.original_output == m.base.output
                        &&& entry.fork_point.original_source == m.base.source
                        &&& entry.fork_point.source_revision == m.base.source_revision
                        &&& entry.fork_point.source_hash == m.base.source_hash
                        &&& entry.fork_point.post_patch_source == m.base.post_patch_source
                        &&& entry.fork_point.post_patch_source_hash
                            == m.base.post_patch_source_hash
                        &&& git::repo_of(m.base.git_commit, forks[i].repo) matches Ok(repo) && {
                            &&& entry.git.base_commit == repo.base_commit
                            &&& entry.git.base_commit_present == repo.base_commit_present
                            &&& entry.git.head_commit == repo.head_commit
                            &&& entry.git.commits_on_top == repo.commits_on_top
                            &&& entry.git.dirty == repo.dirty
                        }
                        &&& p is Ok
                        &&& store::status_of(m, p->Ok_0, records) matches Ok(status)
                            && entry.active == (status is Some)
                    }
                }
        },
    decreases forks.len(),
{
    if forks.len() > 0 {
        every_fork_is_listed(forks.drop_last(), p, records);
        if let Ok(entries) = listing::entries_from(forks, p, records) {
            let front = listing::entries_from(forks.drop_last(), p, records)->Ok_0;
            let last = forks.len() - 1;
            assert(entries[last] == listing::entry_from(forks.last(), p, records)->Ok_0);
            assert forall|i: int| 0 <= i < front.len() implies entries[i] == front[i]
                && #[trigger] forks.drop_last()[i] == forks[i] by {
            }
        }
    }
}

/// The list names the directory of the forks, and is made of the forks' entries.
pub proof fn lists_name_their_directory(
    env: EnvironmentView,
    forks: Seq<ForkFacts>,
    records: Seq<RecordFactsView>,
)
    ensures
        listing::list_of(env, forks, records) matches Ok(list) ==> {
            &&& list.forks_dir == workspace::forks_dir_of(env)
            &&& list.forks.len() == forks.len()
            &&& listing::entries_from(forks, keys::paths_from(env), records) == Ok::<
                Seq<ForkEntryView>,
                Text,
            >(list.forks)
        },
        listing::list_lines_of(ListView { forks_dir: workspace::forks_dir_of(env), forks: Seq::empty() })
            == seq!["no forks found"@, "directory: "@ + workspace::forks_dir_of(env)],
{
    every_fork_is_listed(forks, keys::paths_from(env), records);
}

/// A fork is listed by the name and the label that it is found under.
pub proof fn listed_references_select_the_fork(
    w: WorkspaceView,
    m: MetadataView,
    repo: RepoView,
    active: bool,
)
    ensures
        workspace::sanitized(m.fork.label) == "default"@ ==> listing::listed(
            w,
            m,
            repo,
            active,
        ).reference == workspace::sanitized(keys::display_name_of(m)),
        workspace::sanitized(m.fork.label) != "default"@ ==> listing::listed(
            w,
            m,
            repo,
            active,
        ).reference == workspace::sanitized(keys::display_name_of(m)) + " --label "@
            + workspace::sanitized(m.fork.label),
{
}

/// The list is printed with the lines of every fork; an empty one says so.
pub proof fn printed_lists_tell_of_every_fork(list: ListView, i: int)
    requires
        0 <= i < list.forks.len(),
    ensures
        ({
            let lines = listing::list_lines_of(list);
            let fork = list.forks[i];
            &&& lines.contains(
                fork.reference + " "@ + (match fork.version {
                    Some(version) => version,
                    None => "-"@,
                }) + " active:"@ + (if fork.active {
                    "yes"@
                } else {
                    "no"@
                }) + " commits_on_top:"@ + (match fork.git.commits_on_top {
                    Some(count) => crate::number::decimal(count as nat),
                    None => "unknown"@,
                }) + " dirty:"@ + (if fork.git.dirty {
                    "yes"@
                } else {
                    "no"@
                }),
            )
            &&& lines.contains("  workspace: "@ + fork.workspace)
            &&& lines.contains("  source: "@ + fork.source)
            &&& lines.contains("  installable: "@ + fork.installable)
            &&& lines.contains("  attribute: "@ + fork.attribute)
            &&& lines.contains("  fork_point: "@ + fork.fork_point.git_commit)
            &&& lines.contains("  head: "@ + fork.git.head_commit)
            &&& fork.fork_point.nixpkgs_revision matches Some(revision) ==> lines.contains(
                "  nixpkgs_revision: "@ + revision,
            )
            &&& fork.fork_point.original_source matches Some(source) ==> lines.contains(
                "  original_source: "@ + source,
            )
            &&& fork.fork_point.source_hash matches Some(hash) ==> lines.contains(
                "  source_hash: "@ + hash,
            )
        }),
{
    let f = |fork: ForkEntryView| listing::entry_lines(fork);
    let fork = list.forks[i];
    let own = listing::entry_lines(fork);
    let head = listing::entry_head(fork);
    assert forall|k: int| 0 <= k < own.len() implies listing::list_lines_of(list).contains(
        #[trigger] own[k],
    ) by {
        assert(f(fork) == own);
        assert(own.contains(own[k]));
        text::lemma_flat_map_contains(list.forks, f, i, own[k]);
    }
    assert forall|k: int| 0 <= k < head.len() implies own[k] == #[trigger] head[k] by {
    }
    assert(head[0] == own[0] && head[1] == own[1] && head[2] == own[2] && head[3] == own[3]
        && head[4] == own[4] && head[5] == own[5] && head[6] == own[6]);
    let revision = listing::if_present(
        "  nixpkgs_revision: "@,
        fork.fork_point.nixpkgs_revision,
    );
    let url = listing::if_present(
        "  nixpkgs_resolved_url: "@,
        fork.fork_point.nixpkgs_resolved_url,
    );
    let source = listing::if_present("  original_source: "@, fork.fork_point.original_source);
    let hash = listing::if_present("  source_hash: "@, fork.fork_point.source_hash);
    assert(own == head + revision + url + source + hash);
    let n = head.len() as int;
    if fork.fork_point.nixpkgs_revision is Some {
        assert(own[n] == revision[0]);
    }
    if fork.fork_point.original_source is Some {
        assert(own[n + revision.len() + url.len()] == source[0]);
    }
    if fork.fork_point.source_hash is Some {
        assert(own[n + revision.len() + url.len() + source.len()] == hash[0]);
    }
}

// ---- All records

/// The directories on the search path.
pub open spec fn searched(env: EnvironmentView) -> Seq<Text> {
    text::pieces(
        match env.path {
            Some(path) => path,
            None => Seq::empty(),
        },
        ':',
    )
}

/// The user is warned of links that would not be found just where the directory of links is
/// none of those on the search path.
pub proof fn missing_search_paths_are_told(env: EnvironmentView)
    requires
        is_given(env.home),
    ensures
        keys::hint_for(env) matches Ok(hint) && (hint is None) == (exists|i: int|
            0 <= i < searched(env).len() && paths::components(#[trigger] searched(env)[i])
                == paths::components(keys::user_bin_dir_of(env.home->0))),
{
    let path = text::or_empty(env.path);
    let dir = keys::user_bin_dir_of(env.home->0);
    assert(path == (match env.path {
        Some(path) => path,
        None => Seq::empty(),
    }));
    let dirs = searched(env);
    assert(dirs == text::pieces(path, ':'));
    if keys::on_path(path, dir) {
        let i = choose|i: int|
            0 <= i < text::pieces(path, ':').len() && paths::same_path(
                #[trigger] text::pieces(path, ':')[i],
                dir,
            );
        assert(paths::components(searched(env)[i]) == paths::components(dir));
    }
    if exists|i: int|
        0 <= i < dirs.len() && paths::components(#[trigger] dirs[i]) == paths::components(dir) {
        let i = choose|i: int|
            0 <= i < dirs.len() && paths::components(#[trigger] dirs[i]) == paths::components(dir);
        assert(paths::same_path(text::pieces(path, ':')[i], dir));
    }
}

/// Whether some file of a record is at or below an entry of the activations directory.
pub open spec fn holds_record(entry: store::RecordTreeEntry, path: Text) -> bool
    decreases entry,
{
    match entry {
        store::RecordTreeEntry::NotRead { .. } => false,
        store::RecordTreeEntry::Entry { path: dir, file_type, has_record, below, .. } => {
            file_type is Directory && if has_record {
                path == paths::joined(dir@, "activation.toml"@)
            } else {
                match *below {
                    store::RecordTree::NotRead { .. } => false,
                    store::RecordTree::Listed { entries } => any_holds_record(entries@, path),
                }
            }
        },
    }
}

pub open spec fn any_holds_record(entries: Seq<store::RecordTreeEntry>, path: Text) -> bool
    decreases entries,
{
    entries.len() > 0 && (holds_record(entries[0], path) || any_holds_record(
        entries.drop_first(),
        path,
    ))
}

/// Whether an entry is listed for a record's file.
pub open spec fn is_listed(found: Seq<crate::activation::records::EntryView>, path: Text) -> bool {
    exists|i: int| 0 <= i < found.len() && (#[trigger] found[i]).path() == path
}

proof fn lemma_listed_in_sum(
    a: Seq<crate::activation::records::EntryView>,
    b: Seq<crate::activation::records::EntryView>,
    path: Text,
)
    ensures
        is_listed(a + b, path) == (is_listed(a, path) || is_listed(b, path)),
{
    if is_listed(a + b, path) {
        let i = choose|i: int| 0 <= i < (a + b).len() && (#[trigger] (a + b)[i]).path() == path;
        if i < a.len() {
            assert(a[i].path() == path);
        } else {
            assert(b[i - a.len()].path() == path);
        }
    }
    if is_listed(a, path) {
        let i = choose|i: int| 0 <= i < a.len() && (#[trigger] a[i]).path() == path;
        assert((a + b)[i].path() == path);
    }
    if is_listed(b, path) {
        let i = choose|i: int| 0 <= i < b.len() && (#[trigger] b[i]).path() == path;
        assert((a + b)[a.len() + i].path() == path);
    }
}

proof fn lemma_entry_listed(dir: Text, entry: store::RecordTreeEntry, path: Text)
    ensures
        store::records_at(dir, entry) matches Ok(found) ==> is_listed(found, path) == holds_record(
            entry,
            path,
        ),
    decreases entry,
{
    if let store::RecordTreeEntry::Entry { path: at, file_type, has_record, file, below } = entry {
        if file_type is Directory {
            if has_record {
                let own = store::entry_of(
                    paths::joined(at@, "activation.toml"@),
                    file.deep_view(),
                );
                let found = seq![own];
                assert(found[0].path() == paths::joined(at@, "activation.toml"@));
                if is_listed(found, path) {
                    let i = choose|i: int| 0 <= i < found.len() && (#[trigger] found[i]).path() == path;
                    assert(i == 0);
                }
            } else if let store::RecordTree::Listed { entries } = *below {
                lemma_entries_listed(at@, entries@, path);
            }
        }
    }
}

proof fn lemma_entries_listed(dir: Text, entries: Seq<store::RecordTreeEntry>, path: Text)
    ensures
        store::records_among(dir, entries) matches Ok(found) ==> is_listed(found, path)
            == any_holds_record(entries, path),
    decreases entries,
{
    if entries.len() > 0 {
        lemma_entry_listed(dir, entries[0], path);
        lemma_entries_listed(dir, entries.drop_first(), path);
        if let Ok(found) = store::records_among(dir, entries) {
            lemma_listed_in_sum(
                store::records_at(dir, entries[0])->Ok_0,
                store::records_among(dir, entries.drop_first())->Ok_0,
                path,
            );
        }
    }
}

/// Every record below the activations directory is listed, and nothing else is.
pub proof fn every_record_is_listed(
    p: PathsView,
    entries: Vec<store::RecordTreeEntry>,
    path: Text,
)
    ensures
        store::entries_in(p, Some(store::RecordTree::Listed { entries })) matches Ok(found)
            ==> is_listed(found, path) == any_holds_record(entries@, path),
{
    lemma_entries_listed(p.activations_dir, entries@, path);
    if let Ok(found) = store::entries_in(p, Some(store::RecordTree::Listed { entries })) {
        let listed = store::records_among(p.activations_dir, entries@)->Ok_0;
        crate::order::sorting_orders_and_keeps::<crate::activation::records::ActivationRecordEntry>(
            listed,
        );
        found.to_multiset_ensures();
        listed.to_multiset_ensures();
        if is_listed(found, path) {
            let i = choose|i: int| 0 <= i < found.len() && (#[trigger] found[i]).path() == path;
            assert(found.contains(found[i]));
            assert(listed.to_multiset().count(found[i]) > 0);
            assert(listed.contains(found[i]));
            let k = choose|k: int| 0 <= k < listed.len() && listed[k] == found[i];
            assert(listed[k].path() == path);
        }
        if is_listed(listed, path) {
            let i = choose|i: int| 0 <= i < listed.len() && (#[trigger] listed[i]).path() == path;
            assert(listed.contains(listed[i]));
            assert(found.to_multiset().count(listed[i]) > 0);
            assert(found.contains(listed[i]));
            let k = choose|k: int| 0 <= k < found.len() && found[k] == listed[i];
            assert(found[k].path() == path);
        }
    }
}

} // verus!
