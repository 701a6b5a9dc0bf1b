//! Activations on a machine in memory.
use std::collections::{BTreeMap, BTreeSet};

use forkpkg::activation::check::check_record;
use forkpkg::activation::keys::{
    activations_dir, fork_display_name, fork_key, package_key, path_hint,
    record_paths_for_metadata, ActivationPaths,
};
use forkpkg::activation::plan::{
    plan_home_manager_module, plan_nix_profile, plan_nixos_module, plan_path_shim,
    plan_systemd_user_service, Surroundings,
};
use forkpkg::activation::preflight::{disable_plan, preflight_disable_record, preflight_enable_record};
use forkpkg::activation::profiles::{
    profile_add, profile_contains_store_path, profile_list, profile_remove, ListingRead,
    ProfileElement, ProfileListing,
};
use forkpkg::activation::reading::record_places;
use forkpkg::activation::records::{
    ActivationRecord, ActivationRecordEntry, LinkRecord, PreviousLink,
};
use forkpkg::activation::scripts::{
    apply_enable_record, disable_record, disabled_module_text, enable_home_manager_module,
    enable_nix_profile, enable_nixos_module, enable_path_shim, enable_systemd_user_service,
    enabled_module_text, stamp, with_element, write_record,
};
use forkpkg::activation::store::{
    list_record_entries, read_record, status, RecordFacts, RecordFile, RecordTree, RecordTreeEntry,
};
use forkpkg::activation::transaction::{Action, Failure, Phase, Reply, Transaction};
use forkpkg::directory::{executable_entries, DirEntry, DirRead, EntryRead, ModeRead, TypeRead};
use forkpkg::metadata::{
    BaseMetadata, BuildMetadata, ForkMetadata, Metadata, PackageMetadata,
};
use forkpkg::snapshot::{
    ContentRead, DigestRead, EntryKind, LinkRead, PathFacts, Snapshot, TargetKind,
};
use forkpkg::text::Error;
use forkpkg::workspace::{Environment, Workspace};

#[derive(Debug, Clone, PartialEq, Eq)]
enum Node {
    File { text: String, mode: u32 },
    Link { target: String },
    Dir,
}

/// A file system in memory. Nothing can be added to or taken from a locked directory.
#[derive(Debug, Clone, Default)]
struct Disk {
    nodes: BTreeMap<String, Node>,
    locked: BTreeSet<String>,
    installed: BTreeSet<(Option<String>, String)>,
    commands: Vec<Vec<String>>,
}

fn parent(path: &str) -> String {
    match path.rsplit_once('/') {
        Some(("", _)) => "/".to_owned(),
        Some((front, _)) => front.to_owned(),
        None => String::new(),
    }
}

fn done() -> Reply {
    Reply {
        failure: None,
        present: false,
        text: String::new(),
        listing: ListingRead::Listed { elements: Vec::new() },
    }
}

fn failed(cause: &str) -> Reply {
    Reply { failure: Some(Failure::Failed { cause: cause.to_owned() }), ..done() }
}

impl Disk {
    fn make_dirs(&mut self, path: &str) {
        let mut at = path.to_owned();
        while at != "/" && !at.is_empty() {
            self.nodes.entry(at.clone()).or_insert(Node::Dir);
            at = parent(&at);
        }
    }

    fn write(&mut self, path: &str, text: &str, mode: u32) {
        self.make_dirs(&parent(path));
        self.nodes.insert(path.to_owned(), Node::File { text: text.to_owned(), mode });
    }

    fn link(&mut self, path: &str, target: &str) {
        self.make_dirs(&parent(path));
        self.nodes.insert(path.to_owned(), Node::Link { target: target.to_owned() });
    }

    fn read(&self, path: &str) -> Option<String> {
        match self.nodes.get(path) {
            Some(Node::File { text, .. }) => Some(text.clone()),
            Some(Node::Link { target }) => self.read(target),
            _ => None,
        }
    }

    fn read_link(&self, path: &str) -> Option<String> {
        match self.nodes.get(path) {
            Some(Node::Link { target }) => Some(target.clone()),
            _ => None,
        }
    }

    /// Everything but directories.
    fn files(&self) -> BTreeMap<String, Node> {
        self.nodes
            .iter()
            .filter(|(_, node)| **node != Node::Dir)
            .map(|(path, node)| (path.clone(), node.clone()))
            .collect()
    }

    fn target(&self, path: &str) -> TargetKind {
        match self.nodes.get(path) {
            None => TargetKind::Missing,
            Some(Node::Dir) => TargetKind::Directory,
            Some(Node::File { .. }) => TargetKind::File,
            Some(Node::Link { target }) => self.target(target),
        }
    }

    fn snapshot(&self) -> Snapshot {
        let facts = self
            .nodes
            .iter()
            .map(|(path, node)| PathFacts {
                path: path.clone(),
                entry: match node {
                    Node::Dir => EntryKind::Directory,
                    Node::Link { .. } => EntryKind::Symlink,
                    Node::File { .. } => EntryKind::Other,
                },
                target: self.target(path),
                link: match node {
                    Node::Link { target } => LinkRead::Target { path: target.clone() },
                    _ => LinkRead::Failed { problem: "Invalid argument".to_owned() },
                },
                text: match self.read(path) {
                    Some(text) => ContentRead::Read { text },
                    None => ContentRead::Failed { problem: "no text".to_owned() },
                },
                digest: match self.read(path) {
                    Some(text) => DigestRead::Digest {
                        hex: blake3::hash(text.as_bytes()).to_hex().to_string(),
                    },
                    None => DigestRead::NotOpened { problem: "no file".to_owned() },
                },
            })
            .collect();
        Snapshot { facts }
    }

    fn read_dir(&self, dir: &str) -> DirRead {
        let entries = self
            .nodes
            .iter()
            .filter(|(path, _)| parent(path) == dir)
            .map(|(path, node)| EntryRead::Entry {
                entry: DirEntry {
                    path: path.clone(),
                    file_type: match node {
                        Node::Dir => TypeRead::Directory,
                        Node::Link { .. } => TypeRead::Symlink,
                        Node::File { .. } => TypeRead::File,
                    },
                    mode: match node {
                        Node::File { mode, .. } => ModeRead::File { mode: *mode },
                        _ => ModeRead::NotFile,
                    },
                    text: match self.read(path) {
                        Some(text) => ContentRead::Read { text },
                        None => ContentRead::Failed { problem: "no text".to_owned() },
                    },
                },
            })
            .collect();
        DirRead::Listed { entries }
    }

    fn is_locked(&self, path: &str) -> bool {
        self.locked.contains(&parent(path))
    }

    fn perform(&mut self, action: &Action) -> Reply {
        match action {
            Action::MakeDirs { path } => {
                self.make_dirs(path);
                done()
            }
            Action::Inspect { path } => {
                Reply { present: self.nodes.contains_key(path), ..done() }
            }
            Action::MakeLink { target, link } => {
                if self.nodes.contains_key(link) {
                    return failed("File exists");
                }
                if self.is_locked(link) {
                    return failed("Permission denied");
                }
                self.link(link, target);
                done()
            }
            Action::Rename { from, to } => {
                if self.is_locked(from) || self.is_locked(to) {
                    return failed("Permission denied");
                }
                match self.nodes.remove(from) {
                    Some(node) => {
                        self.nodes.insert(to.clone(), node);
                        done()
                    }
                    None => failed("No such file"),
                }
            }
            Action::RemoveFile { path } => {
                if self.is_locked(path) {
                    return failed("Permission denied");
                }
                match self.nodes.remove(path) {
                    Some(_) => done(),
                    None => failed("No such file"),
                }
            }
            Action::RemoveDir { path } => {
                if !self.nodes.keys().any(|other| parent(other) == *path) {
                    self.nodes.remove(path);
                }
                done()
            }
            Action::WriteFile { path, text, .. } | Action::Overwrite { path, text } => {
                if self.is_locked(path) {
                    return Reply {
                        failure: Some(Failure::NotCreated { cause: "Permission denied".to_owned() }),
                        ..done()
                    };
                }
                self.write(path, text, 0o644);
                done()
            }
            Action::ReadText { path } => match self.read(path) {
                Some(text) => Reply { text, ..done() },
                None => failed("No such file"),
            },
            Action::Systemctl { arguments } => {
                self.commands.push(arguments.clone());
                done()
            }
            Action::ListProfile { profile, .. } => {
                let elements = self
                    .installed
                    .iter()
                    .filter(|(holder, _)| holder == profile)
                    .map(|(_, path)| ProfileElement {
                        name: path.trim_start_matches('/').to_owned(),
                        active: true,
                        store_paths: vec![path.clone()],
                    })
                    .collect();
                Reply { listing: ListingRead::Listed { elements }, ..done() }
            }
            Action::AddProfile { profile, store_path, .. } => {
                self.installed.insert((profile.clone(), store_path.clone()));
                done()
            }
            Action::RemoveProfile { profile, store_path } => {
                self.installed.remove(&(profile.clone(), store_path.clone()));
                done()
            }
            Action::Refuse { message } => failed(message),
        }
    }

    /// Runs a transaction; the action with the number `fault` fails on the way forward.
    fn run(&mut self, transaction: Transaction, fault: Option<usize>) -> (Transaction, usize) {
        let mut transaction = transaction;
        let mut count = 0;
        while let Some(action) = transaction.request().cloned() {
            let forward = matches!(transaction.phase, Phase::Forward);
            let reply = if forward && fault == Some(count) {
                failed("injected fault")
            } else {
                self.perform(&action)
            };
            if forward {
                count += 1;
            }
            transaction = transaction.advance(reply);
        }
        (transaction, count)
    }

    fn settle(&mut self, transaction: Transaction) -> Result<(), Error> {
        let (transaction, _) = self.run(transaction, None);
        transaction.outcome().unwrap()
    }
}

struct Fixture {
    disk: Disk,
    paths: ActivationPaths,
    workspace: Workspace,
    build_output: String,
}

impl Fixture {
    fn new() -> Self {
        let mut disk = Disk::default();
        let root = "/fixture";
        disk.make_dirs("/fixture/workspace/source");
        disk.make_dirs("/fixture/build-output/bin");
        disk.make_dirs("/fixture/home/.local/bin");
        disk.make_dirs("/fixture/home/.config");
        disk.make_dirs("/fixture/state/forkpkg/activations");
        disk.write("/fixture/workspace/forkpkg.toml", "", 0o644);
        Fixture {
            disk,
            paths: ActivationPaths {
                activations_dir: format!("{root}/state/forkpkg/activations"),
                user_bin_dir: format!("{root}/home/.local/bin"),
                user_config_dir: format!("{root}/home/.config"),
            },
            workspace: Workspace::new(format!("{root}/workspace")),
            build_output: format!("{root}/build-output"),
        }
    }

    fn write_executable(&mut self, name: &str) {
        let path = format!("{}/bin/{name}", self.build_output);
        self.disk.write(&path, "#!/bin/sh\n", 0o755);
    }

    fn record_path(&self, record: &ActivationRecord) -> String {
        self.paths.record_path(record)
    }

    fn around(&self, records: Vec<RecordFacts>) -> Surroundings {
        Surroundings {
            paths: self.paths.clone(),
            records,
            snapshot: self.disk.snapshot(),
            now: 7,
        }
    }

    fn plan_shim(&self, metadata: &Metadata) -> Result<ActivationRecord, Error> {
        self.plan_shim_among(metadata, Vec::new(), &None)
    }

    fn plan_shim_among(
        &self,
        metadata: &Metadata,
        records: Vec<RecordFacts>,
        tree: &Option<RecordTree>,
    ) -> Result<ActivationRecord, Error> {
        plan_path_shim(
            metadata,
            &self.workspace,
            &self.build_output,
            &self.disk.read_dir(&format!("{}/bin", self.build_output)),
            tree,
            &self.around(records),
        )
    }

    fn apply(&mut self, record: &ActivationRecord) -> Result<(), Error> {
        let transaction =
            apply_enable_record(record, &self.paths, &self.disk.snapshot(), "record", "1.7")?;
        self.disk.settle(transaction)
    }

    fn disable(&mut self, record: &ActivationRecord) -> Result<(), Error> {
        let transaction = disable_record(record, &self.paths, &self.disk.snapshot(), "1.8")?;
        self.disk.settle(transaction)
    }

    /// Plans the activation of a service with an executable of its own.
    fn plan_service(&mut self, metadata: &Metadata) -> Result<ActivationRecord, Error> {
        let target = format!("{}/libexec/portal", self.build_output);
        let service_file = format!("{}/share/systemd/user/portal.service", self.build_output);
        self.disk.write(&target, "#!/bin/sh\n", 0o755);
        self.disk.write(&service_file, "[Service]\n", 0o644);
        plan_systemd_user_service(
            metadata,
            &self.workspace,
            &self.build_output,
            "portal.service",
            &service_file,
            &target,
            &target,
            &self.around(Vec::new()),
        )
    }
}

fn metadata_for(installable: &str, attribute: &str, system: &str) -> Metadata {
    Metadata {
        format: 1,
        fork: ForkMetadata { label: "default".to_owned() },
        package: PackageMetadata {
            installable: installable.to_owned(),
            flake_ref: installable.split_once('#').unwrap().0.to_owned(),
            attribute: attribute.to_owned(),
            system: system.to_owned(),
            name: Some(format!("{attribute}-2.12.2")),
            pname: Some(attribute.to_owned()),
            version: Some("2.12.2".to_owned()),
        },
        base: BaseMetadata {
            nixpkgs_revision: Some("abc123".to_owned()),
            nixpkgs_last_modified: None,
            nixpkgs_locked_nar_hash: Some("sha256-test".to_owned()),
            nixpkgs_resolved_url: Some("github:NixOS/nixpkgs/abc123".to_owned()),
            nixpkgs_path: None,
            derivation: "drv".to_owned(),
            output: "out".to_owned(),
            source: None,
            source_revision: None,
            source_hash: None,
            source_ca: None,
            post_patch_source: "src".to_owned(),
            post_patch_source_hash: None,
            git_commit: "commit".to_owned(),
        },
        build: BuildMetadata {
            strategy: "strategy".to_owned(),
            patch_handling: "patch".to_owned(),
        },
    }
}

fn hello() -> Metadata {
    metadata_for("nixpkgs#hello", "hello", "x86_64-linux")
}

fn parsed(path: &str, record: &ActivationRecord) -> RecordFacts {
    RecordFacts {
        path: path.to_owned(),
        target: TargetKind::File,
        file: RecordFile::Parsed { record: Box::new(record.clone()) },
    }
}

fn environment(home: Option<&str>, path: Option<&str>) -> Environment {
    Environment {
        home: home.map(str::to_owned),
        xdg_data_home: None,
        xdg_state_home: None,
        xdg_config_home: None,
        path: path.map(str::to_owned),
    }
}

// ---- Keys

#[test]
fn package_key_prefers_pname_and_includes_identity_hash() {
    let metadata = metadata_for("nixpkgs#hello", "hello", "x86_64-linux");

    assert!(package_key(&metadata).starts_with("hello-"));
}

#[test]
fn package_key_distinguishes_systems() {
    let first = metadata_for("nixpkgs#hello", "hello", "x86_64-linux");
    let second = metadata_for("nixpkgs#hello", "hello", "aarch64-linux");

    assert_ne!(package_key(&first), package_key(&second));
}

#[test]
fn package_key_is_the_name_and_the_digest_of_the_identity() {
    let metadata = hello();
    let identity = forkpkg::activation::keys::package_identity(&metadata);
    let digest = blake3::hash(identity.as_bytes()).to_hex().to_string();

    assert_eq!(package_key(&metadata), format!("hello-{digest}"));
    assert_eq!(fork_key(&metadata), format!("hello-{digest}/default"));
    assert_eq!(fork_display_name(&metadata), "hello/default");
}

#[test]
fn only_the_default_label_falls_back_to_older_keys() {
    let fixture = Fixture::new();
    let mut metadata = hello();
    assert_eq!(record_paths_for_metadata(&metadata, &fixture.paths).len(), 3);

    metadata.fork.label = "other".to_owned();
    let paths = record_paths_for_metadata(&metadata, &fixture.paths);
    assert_eq!(
        paths,
        [format!("{}/{}/other/activation.toml", fixture.paths.activations_dir, package_key(&metadata))]
    );
}

#[test]
fn activations_need_a_home() {
    let error = ActivationPaths::from_env(&environment(None, None)).unwrap_err();
    assert_eq!(error.message, "HOME is not set to an absolute path");
    assert!(ActivationPaths::from_env(&environment(Some("relative"), None)).is_err());

    let paths = ActivationPaths::from_env(&environment(Some("/home/me"), None)).unwrap();
    assert_eq!(paths.user_bin_dir, "/home/me/.local/bin");
    assert_eq!(paths.user_config_dir, "/home/me/.config");
    assert_eq!(paths.activations_dir, "/home/me/.local/state/forkpkg/activations");
    assert_eq!(
        activations_dir(&environment(Some("/home/me"), None)),
        "/home/me/.local/state/forkpkg/activations"
    );
}

#[test]
fn the_hint_names_the_missing_directory() {
    let without = environment(Some("/home/me"), Some("/usr/bin:/bin"));
    assert_eq!(
        path_hint(&without).unwrap(),
        Some("/home/me/.local/bin is not currently in PATH".to_owned())
    );
    let with = environment(Some("/home/me"), Some("/usr/bin:/home/me/.local/bin/"));
    assert_eq!(path_hint(&with).unwrap(), None);
}

// ---- Directories

#[test]
fn executable_entries_skip_non_executable_files() {
    let mut disk = Disk::default();
    disk.write("/bin/tool", "#!/bin/sh\n", 0o755);
    disk.write("/bin/data", "payload\n", 0o644);
    disk.make_dirs("/bin/nested");

    let entries = executable_entries("/bin", &disk.read_dir("/bin")).unwrap();

    assert_eq!(entries, ["/bin/tool"]);
}

#[test]
fn executable_entries_tell_what_failed() {
    let failing = DirRead::Failed { cause: "denied".to_owned() };
    assert_eq!(
        executable_entries("/bin", &failing).unwrap_err().message,
        "failed to read /bin: denied"
    );
    let entry = DirRead::Listed { entries: vec![EntryRead::Failed { cause: "gone".to_owned() }] };
    assert_eq!(
        executable_entries("/bin", &entry).unwrap_err().message,
        "failed to read entry in /bin: gone"
    );
}

// ---- Links

#[test]
fn enable_preflight_refuses_raced_path_without_mutation() {
    let mut fixture = Fixture::new();
    let metadata = metadata_for("nixpkgs#hello", "hello", "x86_64-linux");
    fixture.write_executable("a");
    fixture.write_executable("b");
    let a = format!("{}/a", fixture.paths.user_bin_dir);
    let b = format!("{}/b", fixture.paths.user_bin_dir);
    fixture.disk.write(&a, "original\n", 0o644);

    let record = fixture.plan_shim(&metadata).unwrap();
    fixture.disk.write(&b, "raced\n", 0o644);

    let error = fixture.apply(&record).unwrap_err();

    assert!(error.message.contains("newly-created"));
    assert_eq!(fixture.disk.read(&a).unwrap(), "original\n");
    assert!(!fixture.disk.nodes.contains_key(&fixture.record_path(&record)));
}

#[test]
fn disable_refuses_missing_backup_without_removing_active_link() {
    let mut fixture = Fixture::new();
    let metadata = metadata_for("nixpkgs#hello", "hello", "x86_64-linux");
    fixture.write_executable("hello");
    let mut record = fixture.plan_shim(&metadata).unwrap();
    let backup = format!("{}/backups/hello", fixture.paths.activation_dir(&record.key));
    record.links[0].previous = PreviousLink::BackedUp { backup };
    let written = write_record(&record, &fixture.paths, "record", "1.7");
    fixture.disk.settle(written).unwrap();
    let (link, target) = (record.links[0].link.clone(), record.links[0].target.clone());
    fixture.disk.link(&link, &target);

    let error = fixture.disable(&record).unwrap_err();

    assert!(error.message.contains("missing backup"));
    assert_eq!(fixture.disk.read_link(&link).unwrap(), target);
}

#[test]
fn disable_rolls_back_when_record_removal_fails() {
    let mut fixture = Fixture::new();
    let metadata = metadata_for("nixpkgs#hello", "hello", "x86_64-linux");
    fixture.write_executable("hello");
    let original = format!("{}/hello", fixture.paths.user_bin_dir);
    fixture.disk.write(&original, "original\n", 0o644);
    let record = fixture.plan_shim(&metadata).unwrap();
    fixture.apply(&record).unwrap();
    let activation_dir = fixture.paths.activation_dir(&record.key);
    fixture.disk.locked.insert(activation_dir.clone());

    let error = fixture.disable(&record).unwrap_err();

    fixture.disk.locked.clear();
    assert!(error.message.contains("failed to remove"));
    assert_eq!(
        fixture.disk.read_link(&record.links[0].link).unwrap(),
        record.links[0].target
    );
    let backup = match &record.links[0].previous {
        PreviousLink::BackedUp { backup } => backup.clone(),
        PreviousLink::Absent => panic!("expected backup"),
    };
    assert_eq!(fixture.disk.read(&backup).unwrap(), "original\n");
}

#[test]
fn an_activation_and_its_undoing_leave_the_files_as_they_were() {
    let mut fixture = Fixture::new();
    fixture.write_executable("hello");
    fixture.write_executable("new");
    let original = format!("{}/hello", fixture.paths.user_bin_dir);
    fixture.disk.write(&original, "original\n", 0o755);
    let before = fixture.disk.files();

    let record = fixture.plan_shim(&hello()).unwrap();
    fixture.apply(&record).unwrap();
    assert_eq!(
        fixture.disk.read_link(&original).unwrap(),
        format!("{}/bin/hello", fixture.build_output)
    );
    assert_eq!(fixture.disk.read(&fixture.record_path(&record)).unwrap(), "record");

    fixture.disable(&record).unwrap();
    assert_eq!(fixture.disk.files(), before);
}

#[test]
fn planned_links_are_laid_apart() {
    let mut fixture = Fixture::new();
    fixture.write_executable("hello");
    fixture.write_executable("activation.toml");
    let original = format!("{}/hello", fixture.paths.user_bin_dir);
    fixture.disk.write(&original, "original\n", 0o755);
    let record = fixture.plan_shim(&hello()).unwrap();
    let mut places = vec![fixture.record_path(&record)];
    for link in &record.links {
        places.push(link.link.clone());
        if let PreviousLink::BackedUp { backup } = &link.previous {
            places.push(backup.clone());
        }
    }
    assert_eq!(places.len(), 4);
    assert_eq!(places.iter().collect::<BTreeSet<_>>().len(), 4);
}

#[test]
fn directories_of_an_environment_are_apart() {
    let mut metadata = hello();
    metadata.fork.label = "bin".to_owned();
    let paths = ActivationPaths::from_env(&environment(Some("/home/me"), None)).unwrap();
    let own = paths.activation_dir(&fork_key(&metadata));
    assert!(own.ends_with("/bin"));
    assert!(!package_key(&metadata).contains('/'));
    assert_ne!(own, paths.user_bin_dir);
    assert_ne!(format!("{own}/backups"), paths.user_bin_dir);
}

#[test]
fn the_places_of_a_record_are_enough_to_undo_it() {
    let mut fixture = Fixture::new();
    fixture.write_executable("hello");
    let original = format!("{}/hello", fixture.paths.user_bin_dir);
    fixture.disk.write(&original, "original\n", 0o755);
    let before = fixture.disk.files();
    let record = fixture.plan_shim(&hello()).unwrap();
    let places = record_places(&record, &fixture.paths);
    let look = |disk: &Disk| {
        let mut snapshot = disk.snapshot();
        snapshot.facts.retain(|facts| places.contains(&facts.path));
        snapshot
    };

    let seen = look(&fixture.disk);
    let begun = enable_path_shim(&record, &fixture.paths, &seen, "record", "1.7").unwrap();
    fixture.disk.settle(begun).unwrap();
    let seen = look(&fixture.disk);
    let begun = disable_record(&record, &fixture.paths, &seen, "1.8").unwrap();
    fixture.disk.settle(begun).unwrap();

    assert_eq!(fixture.disk.files(), before);
    assert_eq!(fixture.disk.read(&original).unwrap(), "original\n");
    assert!(status(&hello(), &fixture.paths, &Vec::new()).unwrap().is_none());
}

#[test]
fn a_fault_at_any_action_of_an_activation_leaves_no_trace() {
    let mut fixture = Fixture::new();
    fixture.write_executable("hello");
    fixture.write_executable("new");
    let original = format!("{}/hello", fixture.paths.user_bin_dir);
    fixture.disk.write(&original, "original\n", 0o755);
    let record = fixture.plan_shim(&hello()).unwrap();
    let before = fixture.disk.clone();

    let mut fault = 0;
    loop {
        let mut disk = before.clone();
        let transaction =
            enable_path_shim(&record, &fixture.paths, &disk.snapshot(), "record", "1.7").unwrap();
        let (transaction, count) = disk.run(transaction, Some(fault));
        if fault >= count {
            assert!(transaction.outcome().unwrap().is_ok());
            break;
        }
        let error = transaction.outcome().unwrap().unwrap_err();
        assert!(error.message.contains("injected fault"));
        assert_eq!(disk.files(), before.files());
        fault += 1;
    }
    assert!(fault > 4);
}

#[test]
fn a_fault_at_any_action_of_a_deactivation_leaves_no_trace() {
    let mut fixture = Fixture::new();
    fixture.write_executable("hello");
    fixture.write_executable("new");
    let original = format!("{}/hello", fixture.paths.user_bin_dir);
    fixture.disk.write(&original, "original\n", 0o755);
    let record = fixture.plan_shim(&hello()).unwrap();
    fixture.apply(&record).unwrap();
    let before = fixture.disk.clone();

    let mut fault = 0;
    loop {
        let mut disk = before.clone();
        let transaction =
            disable_record(&record, &fixture.paths, &disk.snapshot(), "1.8").unwrap();
        let (transaction, count) = disk.run(transaction, Some(fault));
        if fault >= count {
            break;
        }
        if transaction.outcome().unwrap().is_err() {
            assert_eq!(disk.files(), before.files());
        }
        fault += 1;
    }
    assert!(fault > 3);
}

#[test]
fn plans_refuse_what_is_in_the_way() {
    let mut fixture = Fixture::new();
    assert_eq!(
        fixture.plan_shim(&hello()).unwrap_err().message,
        format!("build output has no executable entries in {}/bin", fixture.build_output)
    );
    fixture.write_executable("hello");
    let place = format!("{}/hello", fixture.paths.user_bin_dir);
    fixture.disk.make_dirs(&place);
    assert_eq!(
        fixture.plan_shim(&hello()).unwrap_err().message,
        format!("refusing to replace existing directory in PATH: {place}")
    );

    fixture.disk.nodes.remove(&place);
    let bin = format!("{}/bin", fixture.build_output);
    fixture.disk.nodes.remove(&format!("{bin}/hello"));
    fixture.disk.nodes.remove(&bin);
    assert_eq!(
        fixture.plan_shim(&hello()).unwrap_err().message,
        format!("build output has no bin directory: {bin}")
    );
}

#[test]
fn a_command_of_another_fork_is_not_taken_over() {
    let mut fixture = Fixture::new();
    fixture.write_executable("hello");
    let mut other = fixture.plan_shim(&hello()).unwrap();
    other.key = "other".to_owned();
    other.package = "other/default".to_owned();
    let tree = RecordTree::Listed {
        entries: vec![RecordTreeEntry::Entry {
            path: format!("{}/other", fixture.paths.activations_dir),
            file_type: TypeRead::Directory,
            has_record: true,
            file: RecordFile::Parsed { record: Box::new(other) },
            below: Box::new(RecordTree::Listed { entries: Vec::new() }),
        }],
    };

    let error = fixture.plan_shim_among(&hello(), Vec::new(), &Some(tree)).unwrap_err();

    assert_eq!(
        error.message,
        format!(
            "{}/hello is already managed by active fork other/default; run forkpkg disable other/default first",
            fixture.paths.user_bin_dir
        )
    );
}

#[test]
fn a_fresh_plan_passes_the_checks() {
    let mut fixture = Fixture::new();
    fixture.write_executable("hello");
    let record = fixture.plan_shim(&hello()).unwrap();
    assert!(preflight_enable_record(&record, &fixture.paths, &fixture.disk.snapshot()).is_ok());

    let target = record.links[0].target.clone();
    fixture.disk.write(&target, "changed\n", 0o755);
    let error =
        preflight_enable_record(&record, &fixture.paths, &fixture.disk.snapshot()).unwrap_err();
    assert!(error.message.starts_with(&format!("refusing to use {target} because its hash changed")));

    fixture.disk.nodes.remove(&target);
    let error =
        preflight_enable_record(&record, &fixture.paths, &fixture.disk.snapshot()).unwrap_err();
    assert_eq!(error.message, format!("target is missing: {target}"));
}

// ---- Services

#[test]
fn plans_systemd_user_service_activation_record() {
    let mut fixture = Fixture::new();
    let metadata = metadata_for("nixpkgs#portal", "portal", "x86_64-linux");
    let target = format!("{}/libexec/portal", fixture.build_output);
    let exec_start = target.clone();

    let record = fixture.plan_service(&metadata).unwrap();

    assert_eq!(record.mode, "systemd-user-service");
    assert!(record.links.is_empty());
    assert_eq!(record.services.len(), 1);
    assert_eq!(record.services[0].service, "portal.service");
    assert_eq!(record.services[0].exec_start, exec_start);
    assert_eq!(record.services[0].target, target);
    assert!(record.services[0].target_blake3.is_some());
    assert_eq!(
        record.services[0].override_path,
        format!(
            "{}/systemd/user/portal.service.d/forkpkg.conf",
            fixture.paths.user_config_dir
        )
    );
}

#[test]
fn a_service_is_overridden_and_released() {
    let mut fixture = Fixture::new();
    let metadata = metadata_for("nixpkgs#portal", "portal", "x86_64-linux");
    let record = fixture.plan_service(&metadata).unwrap();
    let before = fixture.disk.files();
    let snapshot = fixture.disk.snapshot();

    let transaction =
        enable_systemd_user_service(&record, &fixture.paths, &snapshot, "record", "1.7").unwrap();
    fixture.disk.settle(transaction).unwrap();

    let service = &record.services[0];
    assert_eq!(
        fixture.disk.read(&service.override_path).unwrap(),
        format!("[Service]\nExecStart=\nExecStart={}\n", service.exec_start)
    );
    assert_eq!(
        fixture.disk.commands,
        [vec!["daemon-reload".to_owned()], vec!["restart".to_owned(), "portal.service".to_owned()]]
    );
    let check = check_record(record.clone(), &fixture.disk.snapshot(), &Vec::new());
    assert!(check.is_ok());

    fixture.disable(&record).unwrap();
    assert_eq!(fixture.disk.files(), before);
}

#[test]
fn service_plans_tell_why_they_refuse() {
    let mut fixture = Fixture::new();
    let metadata = metadata_for("nixpkgs#portal", "portal", "x86_64-linux");
    let around = fixture.around(Vec::new());
    let plan = |target: &str, around: &Surroundings| {
        plan_systemd_user_service(
            &metadata,
            &fixture.workspace,
            &fixture.build_output,
            "portal.service",
            "/unit",
            "start",
            target,
            around,
        )
        .unwrap_err()
        .message
    };
    assert_eq!(plan("relative", &around), "systemd user service target is not absolute: relative");
    assert_eq!(plan("/none", &around), "systemd user service target does not exist: /none");

    let override_path =
        format!("{}/systemd/user/portal.service.d/forkpkg.conf", fixture.paths.user_config_dir);
    fixture.disk.write(&override_path, "mine\n", 0o644);
    assert_eq!(
        fixture.plan_service(&metadata).unwrap_err().message,
        format!("refusing to overwrite existing systemd override: {override_path}")
    );
}

// ---- Profiles

#[test]
fn a_profile_gains_and_loses_the_output() {
    let mut fixture = Fixture::new();
    let record = plan_nix_profile(
        &hello(),
        &fixture.workspace,
        &fixture.build_output,
        &None,
        &fixture.around(Vec::new()),
    )
    .unwrap();
    assert_eq!(record.mode, "nix-profile");
    assert_eq!(record.profiles[0].priority, 1);

    let transaction = enable_nix_profile(&record, "1.7").unwrap();
    let (transaction, _) = fixture.disk.run(transaction, None);
    assert!(transaction.outcome().unwrap().is_ok());
    let record = with_element(record, transaction.found.clone());
    assert_eq!(record.profiles[0].element, Some("fixture/build-output".to_owned()));
    let written = write_record(&record, &fixture.paths, "record", "1.7");
    fixture.disk.settle(written).unwrap();
    assert!(fixture.disk.installed.contains(&(None, fixture.build_output.clone())));

    fixture.disable(&record).unwrap();
    assert!(fixture.disk.installed.is_empty());
}

#[test]
fn profile_commands_have_their_arguments() {
    let prefix = ["--extra-experimental-features", "nix-command flakes"];
    assert_eq!(
        profile_add(&None, "/nix/store/out", 1),
        [&prefix[..], &["profile", "add", "--priority", "1", "/nix/store/out"][..]].concat()
    );
    assert_eq!(
        profile_remove(&Some("/p".to_owned()), "/nix/store/out"),
        [&prefix[..], &["profile", "remove", "--profile", "/p", "/nix/store/out"][..]].concat()
    );
    assert_eq!(
        profile_list(&None),
        [&prefix[..], &["profile", "list", "--json"][..]].concat()
    );
}

#[test]
fn inactive_elements_provide_nothing() {
    let element = |active: bool| ListingRead::Listed {
        elements: vec![ProfileElement {
            name: "hello".to_owned(),
            active,
            store_paths: vec!["/nix/store/out".to_owned()],
        }],
    };
    assert!(profile_contains_store_path(&element(true), "/nix/store/out").unwrap());
    assert!(!profile_contains_store_path(&element(false), "/nix/store/out").unwrap());
    let failing = ListingRead::NotExecuted { cause: "no nix".to_owned() };
    assert_eq!(
        profile_contains_store_path(&failing, "/nix/store/out").unwrap_err().message,
        "failed to execute nix profile list: no nix"
    );
    let parse = ListingRead::NotParsed { cause: "bad".to_owned() };
    assert_eq!(
        profile_contains_store_path(&parse, "/nix/store/out").unwrap_err().message,
        "failed to parse nix profile JSON: bad"
    );
}

#[test]
fn outputs_have_to_be_there() {
    let fixture = Fixture::new();
    let plan = |output: &str| {
        plan_nix_profile(
            &hello(),
            &fixture.workspace,
            output,
            &None,
            &fixture.around(Vec::new()),
        )
        .unwrap_err()
        .message
    };
    assert_eq!(plan("out"), "build output is not absolute: out");
    assert_eq!(plan("/none"), "build output does not exist: /none");
}

// ---- Modules

#[test]
fn modules_are_written_and_retired() {
    let mut fixture = Fixture::new();
    let record = plan_nixos_module(
        &hello(),
        &fixture.workspace,
        &fixture.build_output,
        &fixture.around(Vec::new()),
    )
    .unwrap();
    let module = record.modules[0].clone();
    assert_eq!(
        module.module,
        format!("{}/nix/nixos-module.nix", fixture.paths.activation_dir(&record.key))
    );
    assert_eq!(
        enabled_module_text(&module),
        format!(
            "# forkpkg: enabled\n{{ ... }}:\n{{\n  nixpkgs.overlays = [ (import (/. + \"{}\")) ];\n}}\n",
            module.overlay
        )
    );

    let transaction =
        enable_nixos_module(&record, &fixture.paths, "overlay".to_owned(), "record", "1.7").unwrap();
    fixture.disk.settle(transaction).unwrap();
    assert_eq!(fixture.disk.read(&module.overlay).unwrap(), "overlay");
    assert_eq!(fixture.disk.read(&module.module).unwrap(), enabled_module_text(&module));
    assert!(check_record(record.clone(), &fixture.disk.snapshot(), &Vec::new()).is_ok());

    fixture.disable(&record).unwrap();
    assert_eq!(fixture.disk.read(&module.module).unwrap(), disabled_module_text(&module));
    assert!(!fixture.disk.nodes.contains_key(&fixture.record_path(&record)));
}

#[test]
fn home_manager_modules_have_their_own_file() {
    let mut fixture = Fixture::new();
    let record = plan_home_manager_module(
        &hello(),
        &fixture.workspace,
        &fixture.build_output,
        &fixture.around(Vec::new()),
    )
    .unwrap();
    assert!(record.modules[0].module.ends_with("/nix/home-manager-module.nix"));
    assert_eq!(record.mode, "home-manager-module");
    let transaction = enable_home_manager_module(
        &record,
        &fixture.paths,
        "overlay".to_owned(),
        "record",
        "1.7",
    )
    .unwrap();
    fixture.disk.settle(transaction).unwrap();
    assert_eq!(fixture.disk.read(&record.modules[0].overlay).unwrap(), "overlay");
}

// ---- Records

#[test]
fn list_record_entries_reports_broken_records() {
    let fixture = Fixture::new();
    let dir = format!("{}/broken", fixture.paths.activations_dir);
    let tree = RecordTree::Listed {
        entries: vec![RecordTreeEntry::Entry {
            path: dir,
            file_type: TypeRead::Directory,
            has_record: true,
            file: RecordFile::NotParsed { cause: "not = [valid".to_owned() },
            below: Box::new(RecordTree::Listed { entries: Vec::new() }),
        }],
    };

    let entries = list_record_entries(&fixture.paths, &Some(tree)).unwrap();

    assert_eq!(entries.len(), 1);
    assert!(matches!(
        &entries[0],
        ActivationRecordEntry::Broken { problem, .. } if problem.contains("failed to parse")
    ));
}

#[test]
fn records_are_found_below_their_package_and_sorted() {
    let fixture = Fixture::new();
    let root = fixture.paths.activations_dir.clone();
    let broken = |path: &str| RecordTreeEntry::Entry {
        path: path.to_owned(),
        file_type: TypeRead::Directory,
        has_record: true,
        file: RecordFile::NotRead { cause: "denied".to_owned() },
        below: Box::new(RecordTree::Listed { entries: Vec::new() }),
    };
    let nested = RecordTreeEntry::Entry {
        path: format!("{root}/b"),
        file_type: TypeRead::Directory,
        has_record: false,
        file: RecordFile::NotRead { cause: "absent".to_owned() },
        below: Box::new(RecordTree::Listed { entries: vec![broken(&format!("{root}/b/one"))] }),
    };
    let tree = RecordTree::Listed { entries: vec![nested, broken(&format!("{root}/a"))] };

    let entries = list_record_entries(&fixture.paths, &Some(tree)).unwrap();

    let paths: Vec<&str> = entries.iter().map(|entry| entry.path()).collect();
    assert_eq!(
        paths,
        [format!("{root}/a/activation.toml"), format!("{root}/b/one/activation.toml")]
    );
    assert!(list_record_entries(&fixture.paths, &None).unwrap().is_empty());
}

#[test]
fn metadata_lookup_falls_back_to_legacy_activation_key() {
    let mut fixture = Fixture::new();
    let metadata = metadata_for("nixpkgs#hello", "hello", "x86_64-linux");
    fixture.write_executable("hello");
    let mut record = fixture.plan_shim(&metadata).unwrap();
    record.key = "hello".to_owned();
    let facts = vec![parsed(&fixture.record_path(&record), &record)];

    let found = status(&metadata, &fixture.paths, &facts).unwrap().unwrap();

    assert_eq!(found.key, "hello");
    assert!(fixture
        .plan_shim_among(&metadata, facts, &None)
        .unwrap_err()
        .message
        .contains("already active"));
}

#[test]
fn read_record_defaults_legacy_key_to_package() {
    let record = ActivationRecord {
        format: 1,
        key: String::new(),
        mode: "path-shim".to_owned(),
        package: "hello".to_owned(),
        installable: "nixpkgs#hello".to_owned(),
        workspace: "/tmp/workspace".to_owned(),
        source: "/tmp/workspace/source".to_owned(),
        build_output: "/tmp/output".to_owned(),
        activated_at_unix: 1,
        links: Vec::new(),
        services: Vec::new(),
        profiles: Vec::new(),
        modules: Vec::new(),
    };

    let record = read_record(
        "activation.toml",
        &RecordFile::Parsed { record: Box::new(record) },
    )
    .unwrap();

    assert_eq!(record.key, "hello");
}

#[test]
fn unreadable_records_are_told() {
    let file = RecordFile::NotRead { cause: "denied".to_owned() };
    assert_eq!(
        read_record("/r", &file).unwrap_err().message,
        "failed to read activation record /r: denied"
    );
    let file = RecordFile::NotParsed { cause: "bad".to_owned() };
    assert_eq!(read_record("/r", &file).unwrap_err().message, "failed to parse /r: bad");
}

#[test]
fn disabling_needs_an_activation() {
    let mut fixture = Fixture::new();
    assert_eq!(
        disable_plan(&hello(), &fixture.paths, &Vec::new(), &fixture.disk.snapshot())
            .unwrap_err()
            .message,
        "hello/default is not active"
    );
    fixture.write_executable("hello");
    let record = fixture.plan_shim(&hello()).unwrap();
    fixture.apply(&record).unwrap();
    let facts = vec![parsed(&fixture.record_path(&record), &record)];
    let found =
        disable_plan(&hello(), &fixture.paths, &facts, &fixture.disk.snapshot()).unwrap();
    assert_eq!(found.key, record.key);
    assert!(preflight_disable_record(&record, &fixture.paths, &fixture.disk.snapshot()).is_ok());
}

#[test]
fn checks_find_what_is_broken() {
    let mut fixture = Fixture::new();
    fixture.write_executable("hello");
    let record = fixture.plan_shim(&hello()).unwrap();
    fixture.apply(&record).unwrap();
    assert!(check_record(record.clone(), &fixture.disk.snapshot(), &Vec::new()).is_ok());

    let link: LinkRecord = record.links[0].clone();
    fixture.disk.write(&link.target, "changed\n", 0o755);
    let changed = blake3::hash(b"changed\n").to_hex().to_string();
    let check = check_record(record.clone(), &fixture.disk.snapshot(), &Vec::new());
    assert_eq!(
        check.problems,
        [format!(
            "target hash mismatch for {}: expected {}, got {changed}",
            link.target,
            link.target_blake3.clone().unwrap()
        )]
    );

    fixture.disk.nodes.remove(&link.link);
    fixture.disk.nodes.remove("/fixture/workspace/forkpkg.toml");
    let check = check_record(record.clone(), &fixture.disk.snapshot(), &Vec::new());
    assert_eq!(check.problems[0], "workspace metadata is missing: /fixture/workspace/forkpkg.toml");
    assert_eq!(check.problems[1], format!("active link is missing: {}", link.link));
}

#[test]
fn profiles_are_checked_against_their_listing() {
    let mut fixture = Fixture::new();
    fixture.disk.installed.insert((None, fixture.build_output.clone()));
    let record = plan_nix_profile(
        &hello(),
        &fixture.workspace,
        &fixture.build_output,
        &None,
        &fixture.around(Vec::new()),
    )
    .unwrap();
    let listing = fixture
        .disk
        .perform(&Action::ListProfile { profile: None, store_path: String::new() })
        .listing;
    let listings = vec![ProfileListing { profile: None, listing }];
    assert!(check_record(record.clone(), &fixture.disk.snapshot(), &listings).is_ok());
    let check = check_record(record, &fixture.disk.snapshot(), &Vec::new());
    assert_eq!(
        check.problems,
        [format!("Nix profile does not contain {}", fixture.build_output)]
    );
}

#[test]
fn stamps_hold_the_process_and_the_time() {
    assert_eq!(stamp(42, 1700000000), "42.1700000000");
}
