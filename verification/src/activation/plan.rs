//! What an activation will do, decided before anything is changed.
use vstd::prelude::*;

use crate::activation::keys::{
    self, fork_display_name, fork_key, ActivationPaths, PathsView,
};
use crate::activation::records::{
    ActivationRecord, ActivationRecordEntry, EntryView, LinkRecord, LinkView, ModuleRecord,
    ModuleView, PreviousLink, PreviousView, ProfileRecord, ProfileView, RecordView, ServiceRecord,
    ServiceView,
};
use crate::activation::store::{
    self, list_record_entries, refuse_active, RecordFacts, RecordTree,
};
use crate::copying::Copied;
use crate::directory::{self, executable_entries, DirRead};
use crate::metadata::{Metadata, MetadataView};
use crate::paths::{self, file_name, is_absolute, join, paths_match};
use crate::snapshot::Snapshot;
use crate::text::{self, cat2, cat6, fail, same, Error, Text};
use crate::workspace::{Workspace, WorkspaceView};

verus! {

// ---- What every record says

/// What a plan is made from, beside the fork itself: where things are kept, the
/// records that exist, the state of the file system, and the time.
#[derive(Debug, Clone)]
pub struct Surroundings {
    pub paths: ActivationPaths,
    pub records: Vec<RecordFacts>,
    pub snapshot: Snapshot,
    pub now: u64,
}

impl Surroundings {
    pub open spec fn view_paths(self) -> PathsView {
        self.paths.deep_view()
    }

    /// Whether a fork has a record already.
    pub open spec fn active(self, m: MetadataView) -> bool {
        store::any_exists(
            keys::record_paths_of(m, self.paths.deep_view()),
            self.records.deep_view(),
        )
    }
}

/// A record of a fork that holds no link, service, profile or module yet.
pub open spec fn blank_record(
    m: MetadataView,
    workspace: WorkspaceView,
    build_output: Text,
    mode: Text,
    now: u64,
) -> RecordView {
    RecordView {
        format: 1,
        key: keys::fork_key_of(m),
        mode,
        package: keys::fork_display_name_of(m),
        installable: m.package.installable,
        workspace: workspace.root,
        source: workspace.source,
        build_output,
        activated_at_unix: now,
        links: Seq::empty(),
        services: Seq::empty(),
        profiles: Seq::empty(),
        modules: Seq::empty(),
    }
}

fn new_record(
    metadata: &Metadata,
    workspace: &Workspace,
    build_output: &str,
    mode: &str,
    now: u64,
) -> (r: ActivationRecord)
    ensures
        r.deep_view() == blank_record(
            metadata.deep_view(),
            workspace.deep_view(),
            build_output@,
            mode@,
            now,
        ),
{
    let r = ActivationRecord {
        format: 1,
        key: fork_key(metadata),
        mode: mode.to_owned(),
        package: fork_display_name(metadata),
        installable: metadata.package.installable.clone(),
        workspace: workspace.root.clone(),
        source: workspace.source.clone(),
        build_output: build_output.to_owned(),
        activated_at_unix: now,
        links: Vec::new(),
        services: Vec::new(),
        profiles: Vec::new(),
        modules: Vec::new(),
    };
    assert(r.deep_view().links =~= Seq::empty());
    assert(r.deep_view().services =~= Seq::empty());
    assert(r.deep_view().profiles =~= Seq::empty());
    assert(r.deep_view().modules =~= Seq::empty());
    r
}

// ---- systemd user services

/// The override of a user service.
pub open spec fn override_path_of(p: PathsView, service: Text) -> Text {
    paths::joined(
        paths::joined(
            paths::joined(paths::joined(p.user_config_dir, "systemd"@), "user"@),
            service + ".d"@,
        ),
        "forkpkg.conf"@,
    )
}

pub(crate) fn override_path(paths: &ActivationPaths, service: &str) -> (r: String)
    ensures
        r@ == override_path_of(paths.deep_view(), service@),
{
    let user_dir = join(join(paths.user_config_dir.as_str(), "systemd").as_str(), "user");
    join(join(user_dir.as_str(), cat2(service, ".d").as_str()).as_str(), "forkpkg.conf")
}

/// The record of a service activation, or the first reason to refuse it.
pub open spec fn service_plan(
    m: MetadataView,
    workspace: WorkspaceView,
    build_output: Text,
    service: Text,
    service_file: Text,
    exec_start: Text,
    target: Text,
    around: Surroundings,
) -> Result<RecordView, Text> {
    let override_path = override_path_of(around.view_paths(), service);
    if around.active(m) {
        Err(store::already_active(m))
    } else if !paths::absolute(target) {
        Err("systemd user service target is not absolute: "@ + target)
    } else if !around.snapshot.has(target) {
        Err("systemd user service target does not exist: "@ + target)
    } else {
        match around.snapshot.has_entry(override_path) {
            Err(problem) => Err(problem),
            Ok(true) => Err(
                "refusing to overwrite existing systemd override: "@ + override_path,
            ),
            Ok(false) => match around.snapshot.digest_or_cause(target) {
                Err(problem) => Err(problem),
                Ok(digest) => Ok(
                    RecordView {
                        services: seq![
                            ServiceView {
                                service,
                                service_file,
                                override_path,
                                exec_start,
                                target,
                                target_blake3: Some(digest),
                            },
                        ],
                        ..blank_record(
                            m,
                            workspace,
                            build_output,
                            "systemd-user-service"@,
                            around.now,
                        )
                    },
                ),
            },
        }
    }
}

/// Plans to run a systemd user service from the fork.
pub fn plan_systemd_user_service(
    metadata: &Metadata,
    workspace: &Workspace,
    build_output: &str,
    service: &str,
    service_file: &str,
    exec_start: &str,
    target: &str,
    around: &Surroundings,
) -> (r: Result<ActivationRecord, Error>)
    ensures
        text::outcome(r) == service_plan(
            metadata.deep_view(),
            workspace.deep_view(),
            build_output@,
            service@,
            service_file@,
            exec_start@,
            target@,
            *around,
        ),
{
    if let Err(error) = refuse_active(metadata, &around.paths, &around.records) {
        return Err(error);
    }
    if !is_absolute(target) {
        return Err(fail(cat2("systemd user service target is not absolute: ", target)));
    }
    if !around.snapshot.is_present(target) {
        return Err(fail(cat2("systemd user service target does not exist: ", target)));
    }
    let override_path = override_path(&around.paths, service);
    match around.snapshot.link_exists(override_path.as_str()) {
        Err(error) => {
            return Err(error);
        },
        Ok(taken) => {
            if taken {
                return Err(
                    fail(
                        cat2(
                            "refusing to overwrite existing systemd override: ",
                            override_path.as_str(),
                        ),
                    ),
                );
            }
        },
    }
    let digest = match around.snapshot.hash_cause(target) {
        Ok(digest) => digest,
        Err(error) => {
            return Err(error);
        },
    };
    let mut record = new_record(
        metadata,
        workspace,
        build_output,
        "systemd-user-service",
        around.now,
    );
    let entry = ServiceRecord {
        service: service.to_owned(),
        service_file: service_file.to_owned(),
        override_path,
        exec_start: exec_start.to_owned(),
        target: target.to_owned(),
        target_blake3: Some(digest),
    };
    let mut services: Vec<ServiceRecord> = Vec::new();
    services.push(entry);
    assert(services.deep_view() =~= seq![entry.deep_view()]);
    record.services = services;
    Ok(record)
}

// ---- Nix profiles and modules

/// Why a build output cannot be activated as a whole, if it cannot.
pub open spec fn output_refusal(m: MetadataView, build_output: Text, around: Surroundings) -> Option<
    Text,
> {
    if around.active(m) {
        Some(store::already_active(m))
    } else if !paths::absolute(build_output) {
        Some("build output is not absolute: "@ + build_output)
    } else if !around.snapshot.has(build_output) {
        Some("build output does not exist: "@ + build_output)
    } else {
        None
    }
}

fn check_output(metadata: &Metadata, build_output: &str, around: &Surroundings) -> (r: Result<
    (),
    Error,
>)
    ensures
        text::refusal(r) == output_refusal(metadata.deep_view(), build_output@, *around),
{
    if let Err(error) = refuse_active(metadata, &around.paths, &around.records) {
        return Err(error);
    }
    if !is_absolute(build_output) {
        return Err(fail(cat2("build output is not absolute: ", build_output)));
    }
    if !around.snapshot.is_present(build_output) {
        return Err(fail(cat2("build output does not exist: ", build_output)));
    }
    Ok(())
}

/// The record of a profile activation, or the first reason to refuse it.
pub open spec fn profile_plan(
    m: MetadataView,
    workspace: WorkspaceView,
    build_output: Text,
    profile: Option<Text>,
    around: Surroundings,
) -> Result<RecordView, Text> {
    match output_refusal(m, build_output, around) {
        Some(problem) => Err(problem),
        None => Ok(
            RecordView {
                profiles: seq![
                    ProfileView { profile, store_path: build_output, element: None, priority: 1 },
                ],
                ..blank_record(m, workspace, build_output, "nix-profile"@, around.now)
            },
        ),
    }
}

/// Plans to install the build output in a Nix profile.
pub fn plan_nix_profile(
    metadata: &Metadata,
    workspace: &Workspace,
    build_output: &str,
    profile: &Option<String>,
    around: &Surroundings,
) -> (r: Result<ActivationRecord, Error>)
    ensures
        text::outcome(r) == profile_plan(
            metadata.deep_view(),
            workspace.deep_view(),
            build_output@,
            profile.deep_view(),
            *around,
        ),
{
    if let Err(error) = check_output(metadata, build_output, around) {
        return Err(error);
    }
    let mut record = new_record(metadata, workspace, build_output, "nix-profile", around.now);
    let entry = ProfileRecord {
        profile: profile.copied(),
        store_path: build_output.to_owned(),
        element: None,
        priority: 1,
    };
    let mut profiles: Vec<ProfileRecord> = Vec::new();
    profiles.push(entry);
    assert(profiles.deep_view() =~= seq![entry.deep_view()]);
    record.profiles = profiles;
    Ok(record)
}

/// The file name of the module that a backend gets.
pub open spec fn module_name_of(backend: Text) -> Option<Text> {
    if backend == "nixos-module"@ {
        Some("nixos-module.nix"@)
    } else if backend == "home-manager-module"@ {
        Some("home-manager-module.nix"@)
    } else {
        None
    }
}

/// The record of a module activation, or the first reason to refuse it.
pub open spec fn module_plan(
    m: MetadataView,
    workspace: WorkspaceView,
    build_output: Text,
    backend: Text,
    around: Surroundings,
) -> Result<RecordView, Text> {
    let nix_dir = paths::joined(
        around.view_paths().activation_dir(keys::fork_key_of(m)),
        "nix"@,
    );
    match output_refusal(m, build_output, around) {
        Some(problem) => Err(problem),
        None => match module_name_of(backend) {
            None => Err("unsupported Nix module backend: "@ + backend),
            Some(module_name) => Ok(
                RecordView {
                    modules: seq![
                        ModuleView {
                            backend,
                            overlay: paths::joined(nix_dir, "overlay.nix"@),
                            module: paths::joined(nix_dir, module_name),
                        },
                    ],
                    ..blank_record(m, workspace, build_output, backend, around.now)
                },
            ),
        },
    }
}

fn plan_nix_module(
    metadata: &Metadata,
    workspace: &Workspace,
    build_output: &str,
    backend: &str,
    around: &Surroundings,
) -> (r: Result<ActivationRecord, Error>)
    ensures
        text::outcome(r) == module_plan(
            metadata.deep_view(),
            workspace.deep_view(),
            build_output@,
            backend@,
            *around,
        ),
{
    if let Err(error) = check_output(metadata, build_output, around) {
        return Err(error);
    }
    let key = fork_key(metadata);
    let nix_dir = join(around.paths.activation_dir(key.as_str()).as_str(), "nix");
    let module_name = if same(backend, "nixos-module") {
        "nixos-module.nix"
    } else if same(backend, "home-manager-module") {
        "home-manager-module.nix"
    } else {
        return Err(fail(cat2("unsupported Nix module backend: ", backend)));
    };
    let mut record = new_record(metadata, workspace, build_output, backend, around.now);
    let entry = ModuleRecord {
        backend: backend.to_owned(),
        overlay: join(nix_dir.as_str(), "overlay.nix"),
        module: join(nix_dir.as_str(), module_name),
    };
    let mut modules: Vec<ModuleRecord> = Vec::new();
    modules.push(entry);
    assert(modules.deep_view() =~= seq![entry.deep_view()]);
    record.modules = modules;
    Ok(record)
}

/// Plans to write a NixOS module for the fork.
pub fn plan_nixos_module(
    metadata: &Metadata,
    workspace: &Workspace,
    build_output: &str,
    around: &Surroundings,
) -> (r: Result<ActivationRecord, Error>)
    ensures
        text::outcome(r) == module_plan(
            metadata.deep_view(),
            workspace.deep_view(),
            build_output@,
            "nixos-module"@,
            *around,
        ),
{
    plan_nix_module(metadata, workspace, build_output, "nixos-module", around)
}

/// Plans to write a Home Manager module for the fork.
pub fn plan_home_manager_module(
    metadata: &Metadata,
    workspace: &Workspace,
    build_output: &str,
    around: &Surroundings,
) -> (r: Result<ActivationRecord, Error>)
    ensures
        text::outcome(r) == module_plan(
            metadata.deep_view(),
            workspace.deep_view(),
            build_output@,
            "home-manager-module"@,
            *around,
        ),
{
    plan_nix_module(metadata, workspace, build_output, "home-manager-module", around)
}

// ---- Links in the user's bin directory

/// Whether a record has a link at a path.
pub open spec fn manages(record: RecordView, link: Text) -> bool {
    exists|i: int|
        0 <= i < record.links.len() && paths::same_path(#[trigger] record.links[i].link, link)
}

/// The package of the first record, other than that of `key`, with a link at a path.
pub open spec fn manager(entries: Seq<EntryView>, key: Text, link: Text) -> Option<Text>
    decreases entries.len(),
{
    if entries.len() == 0 {
        None
    } else {
        match entries[0] {
            EntryView::Valid { record, .. } => if record.key != key && manages(record, link) {
                Some(record.package)
            } else {
                manager(entries.drop_first(), key, link)
            },
            EntryView::Broken { .. } => manager(entries.drop_first(), key, link),
        }
    }
}

fn record_manages(record: &ActivationRecord, link: &str) -> (r: bool)
    ensures
        r == manages(record.deep_view(), link@),
{
    let ghost all = record.deep_view().links;
    let mut i: usize = 0;
    while i < record.links.len()
        invariant
            i <= record.links@.len(),
            all == record.deep_view().links,
            all.len() == record.links@.len(),
            forall|j: int| 0 <= j < i ==> !paths::same_path(#[trigger] all[j].link, link@),
        decreases record.links@.len() - i,
    {
        assert(all[i as int] == record.links@[i as int].deep_view());
        if paths_match(record.links[i].link.as_str(), link) {
            assert(paths::same_path(record.deep_view().links[i as int].link, link@));
            return true;
        }
        i += 1;
    }
    false
}

fn find_manager(entries: &Vec<ActivationRecordEntry>, key: &str, link: &str) -> (r: Option<String>)
    ensures
        r.deep_view() == manager(entries.deep_view(), key@, link@),
{
    let ghost all = entries.deep_view();
    let mut i: usize = 0;
    assert(all.skip(0) =~= all);
    while i < entries.len()
        invariant
            i <= entries@.len(),
            all == entries.deep_view(),
            all.len() == entries@.len(),
            manager(all, key@, link@) == manager(all.skip(i as int), key@, link@),
        decreases entries@.len() - i,
    {
        assert(all.skip(i as int)[0] == entries@[i as int].deep_view());
        assert(all.skip(i as int).drop_first() =~= all.skip(i + 1));
        if let ActivationRecordEntry::Valid { record, .. } = &entries[i] {
            if !same(record.key.as_str(), key) && record_manages(record, link) {
                return Some(record.package.clone());
            }
        }
        i += 1;
    }
    None
}

/// What stands where a link will be: nothing, or an entry that can be moved away.
pub open spec fn previous_at(link: Text, backup: Text, snapshot: Snapshot) -> Result<
    PreviousView,
    Text,
> {
    match snapshot.has_entry(link) {
        Err(problem) => Err(problem),
        Ok(false) => Ok(PreviousView::Absent),
        Ok(true) => match snapshot.has_plain_dir(link) {
            Err(problem) => Err(problem),
            Ok(true) => Err("refusing to replace existing directory in PATH: "@ + link),
            Ok(false) => match snapshot.has_entry(backup) {
                Err(problem) => Err(problem),
                Ok(true) => Err("refusing to overwrite existing backup: "@ + backup),
                Ok(false) => Ok(PreviousView::BackedUp { backup }),
            },
        },
    }
}

fn plan_previous(link: &str, backup: String, snapshot: &Snapshot) -> (r: Result<
    PreviousLink,
    Error,
>)
    ensures
        text::outcome(r) == previous_at(link@, backup@, *snapshot),
{
    match snapshot.link_exists(link) {
        Err(error) => {
            return Err(error);
        },
        Ok(taken) => {
            if !taken {
                return Ok(PreviousLink::Absent);
            }
        },
    }
    match snapshot.is_plain_directory(link) {
        Err(error) => {
            return Err(error);
        },
        Ok(directory) => {
            if directory {
                return Err(
                    fail(cat2("refusing to replace existing directory in PATH: ", link)),
                );
            }
        },
    }
    match snapshot.link_exists(backup.as_str()) {
        Err(error) => {
            return Err(error);
        },
        Ok(taken) => {
            if taken {
                return Err(
                    fail(cat2("refusing to overwrite existing backup: ", backup.as_str())),
                );
            }
        },
    }
    Ok(PreviousLink::BackedUp { backup })
}

/// The link for one executable, or the first reason to refuse it.
pub open spec fn link_plan(
    target: Text,
    key: Text,
    p: PathsView,
    active: Seq<EntryView>,
    snapshot: Snapshot,
) -> Result<LinkView, Text> {
    match paths::last_name(target) {
        None => Err("output entry has no file name: "@ + target),
        Some(name) => {
            let link = paths::joined(p.user_bin_dir, name);
            let backup = paths::joined(
                paths::joined(p.activation_dir(key), "backups"@),
                name,
            );
            match manager(active, key, link) {
                Some(package) => Err(
                    link + " is already managed by active fork "@ + package
                        + "; run forkpkg disable "@ + package + " first"@,
                ),
                None => match previous_at(link, backup, snapshot) {
                    Err(problem) => Err(problem),
                    Ok(previous) => match snapshot.digest_or_cause(target) {
                        Err(problem) => Err(problem),
                        Ok(digest) => Ok(
                            LinkView {
                                name,
                                link,
                                target,
                                target_blake3: Some(digest),
                                previous,
                            },
                        ),
                    },
                },
            }
        },
    }
}

fn plan_link(
    target: &str,
    key: &str,
    paths: &ActivationPaths,
    active: &Vec<ActivationRecordEntry>,
    snapshot: &Snapshot,
) -> (r: Result<LinkRecord, Error>)
    ensures
        text::outcome(r) == link_plan(
            target@,
            key@,
            paths.deep_view(),
            active.deep_view(),
            *snapshot,
        ),
{
    let name = match file_name(target) {
        Some(name) => name,
        None => {
            return Err(fail(cat2("output entry has no file name: ", target)));
        },
    };
    let link = join(paths.user_bin_dir.as_str(), name.as_str());
    let backup = join(
        join(paths.activation_dir(key).as_str(), "backups").as_str(),
        name.as_str(),
    );
    if let Some(package) = find_manager(active, key, link.as_str()) {
        return Err(
            fail(
                cat6(
                    link.as_str(),
                    " is already managed by active fork ",
                    package.as_str(),
                    "; run forkpkg disable ",
                    package.as_str(),
                    " first",
                ),
            ),
        );
    }
    let previous = match plan_previous(link.as_str(), backup, snapshot) {
        Ok(previous) => previous,
        Err(error) => {
            return Err(error);
        },
    };
    let digest = match snapshot.hash_cause(target) {
        Ok(digest) => digest,
        Err(error) => {
            return Err(error);
        },
    };
    Ok(
        LinkRecord {
            name,
            link,
            target: target.to_owned(),
            target_blake3: Some(digest),
            previous,
        },
    )
}

/// The links for all executables, or the first reason to refuse one.
pub open spec fn links_plan(
    targets: Seq<Text>,
    key: Text,
    p: PathsView,
    active: Seq<EntryView>,
    snapshot: Snapshot,
) -> Result<Seq<LinkView>, Text>
    decreases targets.len(),
{
    if targets.len() == 0 {
        Ok(Seq::empty())
    } else {
        match links_plan(targets.drop_last(), key, p, active, snapshot) {
            Err(problem) => Err(problem),
            Ok(front) => match link_plan(targets.last(), key, p, active, snapshot) {
                Err(problem) => Err(problem),
                Ok(link) => Ok(front.push(link)),
            },
        }
    }
}

proof fn lemma_links_plan_stops(
    targets: Seq<Text>,
    key: Text,
    p: PathsView,
    active: Seq<EntryView>,
    snapshot: Snapshot,
    i: int,
)
    requires
        0 <= i <= targets.len(),
        links_plan(targets.take(i), key, p, active, snapshot) is Err,
    ensures
        links_plan(targets, key, p, active, snapshot) == links_plan(
            targets.take(i),
            key,
            p,
            active,
            snapshot,
        ),
    decreases targets.len(),
{
    if i < targets.len() {
        assert(targets.drop_last().take(i) =~= targets.take(i));
        lemma_links_plan_stops(targets.drop_last(), key, p, active, snapshot, i);
    } else {
        assert(targets.take(i) =~= targets);
    }
}

fn plan_links(
    targets: &Vec<String>,
    key: &str,
    paths: &ActivationPaths,
    active: &Vec<ActivationRecordEntry>,
    snapshot: &Snapshot,
) -> (r: Result<Vec<LinkRecord>, Error>)
    ensures
        text::outcome(r) == links_plan(
            targets.deep_view(),
            key@,
            paths.deep_view(),
            active.deep_view(),
            *snapshot,
        ),
{
    let ghost all = targets.deep_view();
    let ghost p = paths.deep_view();
    let ghost others = active.deep_view();
    let mut links: Vec<LinkRecord> = Vec::new();
    let mut i: usize = 0;
    assert(links.deep_view() =~= Seq::empty());
    while i < targets.len()
        invariant
            i <= targets@.len(),
            all == targets.deep_view(),
            all.len() == targets@.len(),
            p == paths.deep_view(),
            others == active.deep_view(),
            links_plan(all.take(i as int), key@, p, others, *snapshot) == Ok::<
                Seq<LinkView>,
                Text,
            >(links.deep_view()),
        decreases targets@.len() - i,
    {
        assert(all.take(i + 1).drop_last() =~= all.take(i as int));
        assert(all.take(i + 1).last() == targets@[i as int]@);
        match plan_link(targets[i].as_str(), key, paths, active, snapshot) {
            Err(error) => {
                proof {
                    lemma_links_plan_stops(all, key@, p, others, *snapshot, i + 1);
                }
                return Err(error);
            },
            Ok(link) => {
                let ghost before = links.deep_view();
                links.push(link);
                assert(links.deep_view() =~= before.push(link.deep_view()));
            },
        }
        i += 1;
    }
    assert(all.take(all.len() as int) =~= all);
    Ok(links)
}

/// The record of a link activation, or the first reason to refuse it.
pub open spec fn shim_plan(
    m: MetadataView,
    workspace: WorkspaceView,
    build_output: Text,
    bin: DirRead,
    active: Option<RecordTree>,
    around: Surroundings,
) -> Result<RecordView, Text> {
    let p = around.view_paths();
    let bin_dir = paths::joined(build_output, "bin"@);
    let known = store::entries_in(p, active);
    if around.active(m) {
        Err(store::already_active(m))
    } else if !around.snapshot.has_dir(bin_dir) {
        Err("build output has no bin directory: "@ + bin_dir)
    } else {
        match directory::executables_in(bin_dir, bin.deep_view()) {
            Err(problem) => Err(problem),
            Ok(targets) => if targets.len() == 0 {
                Err("build output has no executable entries in "@ + bin_dir)
            } else {
                match known {
                    Err(problem) => Err(problem),
                    Ok(others) => match links_plan(
                        targets,
                        keys::fork_key_of(m),
                        p,
                        others,
                        around.snapshot,
                    ) {
                        Err(problem) => Err(problem),
                        Ok(links) => Ok(
                            RecordView {
                                links,
                                ..blank_record(
                                    m,
                                    workspace,
                                    build_output,
                                    "path-shim"@,
                                    around.now,
                                )
                            },
                        ),
                    },
                }
            },
        }
    }
}

/// Plans to link the fork's executables into the user's bin directory. `bin` is what
/// reading the output's bin directory answered, `active` what is below the
/// activations directory.
pub fn plan_path_shim(
    metadata: &Metadata,
    workspace: &Workspace,
    build_output: &str,
    bin: &DirRead,
    active: &Option<RecordTree>,
    around: &Surroundings,
) -> (r: Result<ActivationRecord, Error>)
    ensures
        text::outcome(r) == shim_plan(
            metadata.deep_view(),
            workspace.deep_view(),
            build_output@,
            *bin,
            *active,
            *around,
        ),
{
    if let Err(error) = refuse_active(metadata, &around.paths, &around.records) {
        return Err(error);
    }
    let bin_dir = join(build_output, "bin");
    if !around.snapshot.is_dir(bin_dir.as_str()) {
        return Err(fail(cat2("build output has no bin directory: ", bin_dir.as_str())));
    }
    let targets = match executable_entries(bin_dir.as_str(), bin) {
        Ok(targets) => targets,
        Err(error) => {
            return Err(error);
        },
    };
    if targets.len() == 0 {
        return Err(fail(cat2("build output has no executable entries in ", bin_dir.as_str())));
    }
    let others = match list_record_entries(&around.paths, active) {
        Ok(others) => others,
        Err(error) => {
            return Err(error);
        },
    };
    let key = fork_key(metadata);
    let links = match plan_links(&targets, key.as_str(), &around.paths, &others, &around.snapshot) {
        Ok(links) => links,
        Err(error) => {
            return Err(error);
        },
    };
    let mut record = new_record(metadata, workspace, build_output, "path-shim", around.now);
    record.links = links;
    Ok(record)
}

} // verus!
