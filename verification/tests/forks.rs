//! Workspaces, making forks and listing them.
use forkpkg::activation::keys::ActivationPaths;
use forkpkg::activation::reading::{record_places, record_profiles};
use forkpkg::activation::records::ActivationRecord;
use forkpkg::activation::store::{RecordFacts, RecordFile};
use forkpkg::command::CommandRead;
use forkpkg::doctor::{disable_all, disabled_entry, doctor, ForkHealth};
use forkpkg::forking::{
    base_description, fork_label_or_default, fork_lines, fork_metadata, fork_reference, place_fork,
    plan_fork, workspace_name, Legacy,
};
use forkpkg::git::{RepoReads, RepoState};
use forkpkg::listing::{collect_list, list_lines, ForkFacts};
use forkpkg::metadata::{Metadata, MetadataFile};
use forkpkg::nix::{
    resolve_installable, FlakeIdentity, PackageEval, ResolvedPackage, StorePathInfo,
};
use forkpkg::paths::parent_of;
use forkpkg::reports::{
    apply_lines, disable_lines, enable_lines, export_lines, import_lines, info_lines,
    record_target_ids, status_lines,
};
use forkpkg::sharing::{ExportSummary, ImportSummary};
use forkpkg::snapshot::{
    ContentRead, DigestRead, EntryKind, LinkRead, PathFacts, Snapshot, TargetKind,
};
use forkpkg::activation::records::{
    ActivationRecordEntry, LinkRecord, ModuleRecord, PreviousLink, ProfileRecord, ServiceRecord,
};
use forkpkg::activation::store::{RecordTree, RecordTreeEntry};
use forkpkg::directory::TypeRead;
use forkpkg::workspace::{
    check_tree, copy_entry, create_managed, find, forks_dir, labeled_workspace, list_managed,
    managed_workspace, metadata_places, resolve_labeled, sanitize_workspace_name, search_start,
    selection_places, stable_name, state_home, writable_mode, CopyStep, Environment, SourceEntry, StartRead, Workspace,
};

fn environment() -> Environment {
    Environment {
        home: Some("/home/me".to_owned()),
        xdg_data_home: None,
        xdg_state_home: None,
        xdg_config_home: None,
        path: Some("/usr/bin".to_owned()),
    }
}

fn file(path: &str) -> PathFacts {
    PathFacts {
        path: path.to_owned(),
        entry: EntryKind::Other,
        target: TargetKind::File,
        link: LinkRead::Failed { problem: "no link".to_owned() },
        text: ContentRead::Read { text: String::new() },
        digest: DigestRead::Digest { hex: "00".to_owned() },
    }
}

fn snapshot_of(files: &[&str]) -> Snapshot {
    Snapshot { facts: files.iter().map(|path| file(path)).collect() }
}

fn package() -> ResolvedPackage {
    let eval = PackageEval {
        system: "x86_64-linux".to_owned(),
        package_name: Some("hello-2.12".to_owned()),
        package_pname: Some("hello".to_owned()),
        package_version: Some("2.12".to_owned()),
        derivation: "/nix/store/hello.drv".to_owned(),
        output: "/nix/store/hello".to_owned(),
        source: Some("/nix/store/hello-src".to_owned()),
        source_revision: None,
        source_hash: None,
    };
    let flake = FlakeIdentity {
        revision: Some("abc".to_owned()),
        last_modified: Some(5),
        locked_nar_hash: None,
        resolved_url: Some("github:NixOS/nixpkgs/abc".to_owned()),
        path: None,
    };
    let store = StorePathInfo { nar_hash: Some("sha256-n".to_owned()), ca: Some("fixed".to_owned()) };
    resolve_installable("nixpkgs#hello", eval, flake, Some(store)).unwrap()
}

fn metadata() -> Metadata {
    fork_metadata(&package(), "default", "/nix/store/post", &None, "base")
}

fn printed(stdout: &str) -> CommandRead {
    CommandRead::Printed { stdout: stdout.to_owned() }
}

fn record() -> ActivationRecord {
    ActivationRecord {
        format: 1,
        key: "key".to_owned(),
        mode: "path-shim".to_owned(),
        package: "hello/default".to_owned(),
        installable: "nixpkgs#hello".to_owned(),
        workspace: "/w".to_owned(),
        source: "/w/source".to_owned(),
        build_output: "/nix/store/out".to_owned(),
        activated_at_unix: 1,
        links: vec![LinkRecord {
            name: "hello".to_owned(),
            link: "/bin/hello".to_owned(),
            target: "/nix/store/out/bin/hello".to_owned(),
            target_blake3: Some("aa".to_owned()),
            previous: PreviousLink::BackedUp { backup: "/backup".to_owned() },
        }],
        services: vec![ServiceRecord {
            service: "a.service".to_owned(),
            service_file: "/unit".to_owned(),
            override_path: "/override".to_owned(),
            exec_start: "/start".to_owned(),
            target: "/target".to_owned(),
            target_blake3: None,
        }],
        profiles: vec![ProfileRecord {
            profile: None,
            store_path: "/nix/store/out".to_owned(),
            element: Some("hello".to_owned()),
            priority: -3,
        }],
        modules: vec![ModuleRecord {
            backend: "nixos-module".to_owned(),
            overlay: "/overlay.nix".to_owned(),
            module: "/module.nix".to_owned(),
        }],
    }
}

#[test]
fn a_record_names_the_places_to_look_at() {
    let paths = ActivationPaths {
        activations_dir: "/state".to_owned(),
        user_bin_dir: "/bin".to_owned(),
        user_config_dir: "/config".to_owned(),
    };
    assert_eq!(
        record_places(&record(), &paths),
        [
            "/state/key/activation.toml",
            "/w/forkpkg.toml",
            "/w/source",
            "/nix/store/out",
            "/bin/hello",
            "/nix/store/out/bin/hello",
            "/backup",
            "/unit",
            "/override",
            "/target",
            "/overlay.nix",
            "/module.nix",
        ]
    );
    assert_eq!(record_profiles(&record()), [None]);
}

// ---- Names and places

#[test]
fn sanitizes_workspace_names() {
    assert_eq!(sanitize_workspace_name("ripgrep"), "ripgrep");
    assert_eq!(
        sanitize_workspace_name("xdg desktop portal/gnome"),
        "xdg-desktop-portal-gnome"
    );
    assert_eq!(sanitize_workspace_name("..."), "fork");
}

#[test]
fn sanitizing_twice_changes_nothing_more() {
    for name in ["a b", "--x--", "../../etc", "\u{e9}t\u{e9}", "", "a.b_c-d"] {
        let once = sanitize_workspace_name(name);
        assert_eq!(sanitize_workspace_name(&once), once);
        assert!(!once.contains('/'));
        assert!(!once.is_empty());
    }
    assert_eq!(sanitize_workspace_name("../../etc"), "etc");
}

#[test]
fn stable_names_end_in_a_digest() {
    assert_eq!(
        stable_name("he llo", "identity"),
        format!("he-llo-{}", blake3::hash(b"identity").to_hex())
    );
}

#[test]
fn forks_are_kept_below_the_data_home() {
    let env = environment();
    assert_eq!(forks_dir(&env), "/home/me/.local/share/forkpkg/forks");
    assert_eq!(state_home(&env), "/home/me/.local/state");
    assert_eq!(managed_workspace(&env, "a/b"), "/home/me/.local/share/forkpkg/forks/a-b");
    assert_eq!(
        labeled_workspace(&env, "hello", "my label"),
        "/home/me/.local/share/forkpkg/forks/hello/my-label"
    );
    let relative = Environment { xdg_data_home: Some("data".to_owned()), ..environment() };
    assert_eq!(forks_dir(&relative), "/home/me/.local/share/forkpkg/forks");
    let absolute = Environment { xdg_data_home: Some("/data".to_owned()), ..environment() };
    assert_eq!(forks_dir(&absolute), "/data/forkpkg/forks");
}

#[test]
fn a_workspace_is_never_reused() {
    let workspace = create_managed("/forks/hello", false).unwrap();
    assert_eq!(workspace.source, "/forks/hello/source");
    assert_eq!(workspace.metadata, "/forks/hello/forkpkg.toml");
    assert_eq!(
        create_managed("/forks/hello", true).unwrap_err().message,
        "fork workspace already exists: /forks/hello"
    );
}

#[test]
fn managed_forks_have_metadata_and_are_sorted() {
    let dirs = vec!["/forks/b".to_owned(), "/forks/none".to_owned(), "/forks/a".to_owned()];
    let snapshot = snapshot_of(&["/forks/a/forkpkg.toml", "/forks/b/forkpkg.toml"]);
    let found = list_managed(&dirs, &snapshot);
    let roots: Vec<&str> = found.iter().map(|workspace| workspace.root.as_str()).collect();
    assert_eq!(roots, ["/forks/a", "/forks/b"]);
}

#[test]
fn workspaces_are_found_upward() {
    let snapshot = snapshot_of(&["/forks/a/forkpkg.toml"]);
    assert_eq!(find("/forks/a/source/src", &snapshot).unwrap().root, "/forks/a");
    assert_eq!(find("/forks/a", &snapshot).unwrap().root, "/forks/a");
    assert_eq!(
        find("/forks", &snapshot).unwrap_err().message,
        "no forkpkg.toml found from the requested path upward"
    );
    let from_root = find("/forks/a", &snapshot).unwrap();
    let from_source = find(&from_root.source, &snapshot).unwrap();
    assert_eq!(from_source.root, from_root.root);
    assert_eq!(from_source.source, "/forks/a/source");
    assert_eq!(search_start("/a//b/./file", true).unwrap(), "/a//b");
    assert_eq!(search_start("/a/file", true).unwrap(), "/a");
    assert_eq!(search_start("/a/dir", false).unwrap(), "/a/dir");
    assert_eq!(search_start("/", true).unwrap_err().message, "path has no parent: /");
}

#[test]
fn parents_keep_their_spelling() {
    let parent = |path: &str| parent_of(path);
    for path in [
        "/home//u/x", "/home/./x", "/home//x", "/x", "//x", "/", "", "x", "x/", "./x", ".", "..",
        "a/.", "a/./", "a/b/../c", "/.", "//", "a//./b//",
    ] {
        let std = std::path::Path::new(path).parent().map(|above| above.to_str().unwrap());
        assert_eq!(parent(path).as_deref(), std, "{path}");
    }
    assert_eq!(parent("/home//u/x").unwrap(), "/home//u");
}

#[test]
fn selecting_looks_upward_and_at_the_named_fork() {
    let env = environment();
    let root = "/home/me/.local/share/forkpkg/forks";
    let here = StartRead::Resolved { path: "/here/source".to_owned() };
    assert_eq!(
        selection_places(&env, &None, &None, &here),
        ["/here/source/forkpkg.toml", "/here/forkpkg.toml", "/forkpkg.toml"]
    );
    let near = StartRead::Resolved { path: "near".to_owned() };
    assert_eq!(
        selection_places(&env, &None, &None, &near),
        ["near/forkpkg.toml", "forkpkg.toml"]
    );
    assert_eq!(
        selection_places(
            &env,
            &Some("hello".to_owned()),
            &Some("my work".to_owned()),
            &StartRead::Missing
        ),
        [
            format!("{root}/hello/my-work/forkpkg.toml"),
            format!("{root}/hello/forkpkg.toml"),
        ]
    );
    assert_eq!(
        metadata_places(&vec!["/a".to_owned(), "/b/".to_owned()]),
        ["/a/forkpkg.toml", "/b/forkpkg.toml"]
    );
}

#[test]
fn forks_are_selected_by_path_or_by_name() {
    let env = environment();
    let root = "/home/me/.local/share/forkpkg/forks";
    let snapshot = snapshot_of(&[
        "/here/forkpkg.toml",
        &format!("{root}/hello/work/forkpkg.toml"),
        &format!("{root}/old/forkpkg.toml"),
    ]);
    let here = StartRead::Resolved { path: "/here/source".to_owned() };
    let select = |path: Option<&str>, label: Option<&str>, start: &StartRead| {
        resolve_labeled(
            &env,
            &path.map(str::to_owned),
            &label.map(str::to_owned),
            start,
            &snapshot,
        )
    };
    assert_eq!(select(None, None, &here).unwrap().root, "/here");
    assert_eq!(select(Some("."), None, &here).unwrap().root, "/here");
    assert_eq!(
        select(Some("hello"), Some("work"), &StartRead::Missing).unwrap().root,
        format!("{root}/hello/work")
    );
    assert_eq!(
        select(Some("old"), None, &StartRead::Missing).unwrap().root,
        format!("{root}/old")
    );
    assert_eq!(
        select(Some("hello"), None, &StartRead::Missing).unwrap_err().message,
        "no managed fork found for hello/default"
    );
    assert_eq!(
        select(None, Some("work"), &here).unwrap_err().message,
        "--label needs a package name"
    );
    let failed = StartRead::Failed { problem: "failed to resolve x".to_owned() };
    assert_eq!(select(Some("x"), None, &failed).unwrap_err().message, "failed to resolve x");
}

#[test]
fn copies_are_writable() {
    assert_eq!(writable_mode(0o444, false), 0o644);
    assert_eq!(writable_mode(0o555, true), 0o755);
    assert!(matches!(
        copy_entry("/f", SourceEntry::File, 0o555).unwrap(),
        CopyStep::Contents { mode: 0o755 }
    ));
    assert!(matches!(copy_entry("/l", SourceEntry::Symlink, 0).unwrap(), CopyStep::Link));
    assert!(matches!(copy_entry("/d", SourceEntry::Directory, 0).unwrap(), CopyStep::Descend));
    assert_eq!(
        copy_entry("/dev", SourceEntry::Other, 0).unwrap_err().message,
        "unsupported source entry type: /dev"
    );
    assert!(check_tree("/src", true).is_ok());
    assert_eq!(check_tree("/src", false).unwrap_err().message, "source is not a directory: /src");
}

// ---- Making forks

#[test]
fn workspace_names_come_from_the_package() {
    let mut resolved = package();
    assert_eq!(workspace_name(&resolved), "hello");
    resolved.package_pname = None;
    resolved.installable.attr_path = vec!["set".to_owned(), "a b".to_owned()];
    assert_eq!(workspace_name(&resolved), "a-b");
    resolved.installable.attr_path = Vec::new();
    assert_eq!(workspace_name(&resolved), "hello-2.12");
    resolved.package_name = None;
    assert_eq!(workspace_name(&resolved), "package");
}

#[test]
fn bases_are_described_by_their_revision() {
    let mut resolved = package();
    assert_eq!(base_description(&resolved), "nixpkgs@abc#hello");
    resolved.flake.revision = None;
    assert_eq!(base_description(&resolved), "nixpkgs#hello");
}

#[test]
fn references_name_the_label_unless_it_is_the_default() {
    assert_eq!(fork_reference("my pkg", "default"), "my-pkg");
    assert_eq!(fork_reference("hello", "a b"), "hello --label a-b");
}

#[test]
fn a_second_fork_needs_a_label() {
    assert_eq!(fork_label_or_default(&None, "hello", 0).unwrap(), "default");
    assert_eq!(fork_label_or_default(&Some("a b".to_owned()), "hello", 3).unwrap(), "a-b");
    assert_eq!(
        fork_label_or_default(&None, "hello", 1).unwrap_err().message,
        "fork already exists for hello; use --label <label> to create another fork"
    );
}

#[test]
fn older_workspaces_are_moved_but_never_replaced() {
    let label = Some("work".to_owned());
    let plan = plan_fork(&label, "hello", 1, &Legacy::Inactive).unwrap();
    assert!(plan.migrate);
    assert_eq!(plan.label, "work");
    assert!(!plan_fork(&label, "hello", 1, &Legacy::Absent).unwrap().migrate);
    assert_eq!(
        plan_fork(&label, "hello", 1, &Legacy::Active).unwrap_err().message,
        "legacy fork hello/default is active; disable it before creating another label"
    );
    let unreadable = Legacy::Unreadable { problem: "bad record".to_owned() };
    assert_eq!(plan_fork(&label, "hello", 1, &unreadable).unwrap_err().message, "bad record");
    assert_eq!(
        plan_fork(&Some("default".to_owned()), "hello", 1, &Legacy::Inactive).unwrap_err().message,
        "fork workspace already exists: hello/default"
    );
}

#[test]
fn planned_forks_go_to_their_label() {
    let plan = plan_fork(&None, "hello", 0, &Legacy::Absent).unwrap();
    let workspace = place_fork(&environment(), &plan, false).unwrap();
    assert_eq!(workspace.root, "/home/me/.local/share/forkpkg/forks/hello/default");
    assert!(place_fork(&environment(), &plan, true).is_err());
    assert_eq!(
        fork_lines(&plan, &workspace, "abc", "/out"),
        [
            "workspace: /home/me/.local/share/forkpkg/forks/hello/default",
            "fork: hello",
            "source: /home/me/.local/share/forkpkg/forks/hello/default/source",
            "base_commit: abc",
            "output: /out",
        ]
    );
}

#[test]
fn fork_metadata_records_the_package() {
    let info = Some(StorePathInfo { nar_hash: Some("sha256-p".to_owned()), ca: None });
    let metadata = fork_metadata(&package(), "work", "/nix/store/post", &info, "base");
    assert_eq!(metadata.format, 1);
    assert_eq!(metadata.fork.label, "work");
    assert_eq!(metadata.package.installable, "nixpkgs#hello");
    assert_eq!(metadata.base.source_hash, Some("sha256-n".to_owned()));
    assert_eq!(metadata.base.source_ca, Some("fixed".to_owned()));
    assert_eq!(metadata.base.post_patch_source_hash, Some("sha256-p".to_owned()));
    assert_eq!(metadata.base.git_commit, "base");
    assert_eq!(metadata.build.strategy, "overrideAttrs-src-post-patch-tree");

    let mut hashed = package();
    hashed.source_hash = Some("own".to_owned());
    let metadata = fork_metadata(&hashed, "work", "/nix/store/post", &None, "base");
    assert_eq!(metadata.base.source_hash, Some("own".to_owned()));
    assert_eq!(metadata.base.post_patch_source_hash, None);
}

// ---- Listing

fn listed(metadata: MetadataFile) -> ForkFacts {
    ForkFacts {
        workspace: Workspace::new("/forks/hello".to_owned()),
        metadata,
        repo: RepoReads {
            head: printed("head\n"),
            status: printed(""),
            base: printed("base\n"),
            count: printed("2\n"),
        },
    }
}

#[test]
fn forks_are_listed_with_their_state() {
    let forks = vec![listed(MetadataFile::Parsed { metadata: metadata() })];
    let list = collect_list(&environment(), &forks, &Vec::new()).unwrap();
    assert_eq!(list.forks.len(), 1);
    assert_eq!(list.forks[0].reference, "hello");
    assert!(!list.forks[0].active);
    assert_eq!(
        list_lines(&list),
        [
            "hello 2.12 active:no commits_on_top:2 dirty:no",
            "  workspace: /forks/hello",
            "  source: /forks/hello/source",
            "  installable: nixpkgs#hello",
            "  attribute: hello",
            "  fork_point: base",
            "  head: head",
            "  base_commit_present: yes",
            "  nixpkgs_revision: abc",
            "  nixpkgs_resolved_url: github:NixOS/nixpkgs/abc",
            "  original_source: /nix/store/hello-src",
            "  source_hash: sha256-n",
        ]
    );
    let empty = collect_list(&environment(), &Vec::new(), &Vec::new()).unwrap();
    assert_eq!(
        list_lines(&empty),
        ["no forks found", "directory: /home/me/.local/share/forkpkg/forks"]
    );
}

#[test]
fn listing_stops_at_the_first_failure() {
    let forks = vec![
        listed(MetadataFile::NotParsed { cause: "bad".to_owned() }),
        listed(MetadataFile::NotRead { cause: "never told".to_owned() }),
    ];
    assert_eq!(
        collect_list(&environment(), &forks, &Vec::new()).unwrap_err().message,
        "failed to read /forks/hello/forkpkg.toml: failed to parse /forks/hello/forkpkg.toml: bad"
    );
    let mut fork = listed(MetadataFile::Parsed { metadata: metadata() });
    fork.repo.head = CommandRead::NotExecuted { cause: "no git".to_owned() };
    assert_eq!(
        collect_list(&environment(), &vec![fork], &Vec::new()).unwrap_err().message,
        "failed to inspect Git state in /forks/hello/source: failed to execute git: no git"
    );
    let homeless = Environment { home: None, ..environment() };
    let forks = vec![listed(MetadataFile::Parsed { metadata: metadata() })];
    assert_eq!(
        collect_list(&homeless, &forks, &Vec::new()).unwrap_err().message,
        "HOME is not set to an absolute path"
    );
}

// ---- Reports

#[test]
fn activations_are_told() {
    let lines = enable_lines(&record(), false, &environment());
    assert_eq!(
        lines,
        [
            "enabled: hello/default",
            "mode: path-shim",
            "output: /nix/store/out",
            "link: /bin/hello -> /nix/store/out/bin/hello",
            "target_blake3: aa",
            "previous backup: /backup",
            "warning: /home/me/.local/bin is not currently in PATH",
            "service: a.service",
            "override: /override",
            "service_file: /unit",
            "exec_start: /start",
            "target: /target",
            "target_blake3: missing",
            "profile: default",
            "profile_store_path: /nix/store/out",
            "profile_element: hello",
            "profile_priority: -3",
            "module_backend: nixos-module",
            "module: /module.nix",
            "overlay: /overlay.nix",
            "next: import module in NixOS config, then run nixos-rebuild switch",
        ]
    );
    let lines = enable_lines(&record(), true, &environment());
    assert_eq!(
        lines[..8],
        [
            "would enable: hello/default",
            "mode: path-shim",
            "output: /nix/store/out",
            "would move existing: /bin/hello",
            "backup: /backup",
            "would create: /bin/hello -> /nix/store/out/bin/hello",
            "target_blake3: aa",
            "warning: /home/me/.local/bin is not currently in PATH",
        ]
    );
    assert_eq!(
        lines[8..11],
        [
            "override: /override",
            "would run: systemctl --user daemon-reload",
            "would run: systemctl --user restart a.service",
        ]
    );
    assert_eq!(
        lines[19..],
        [
            "would write module: /module.nix",
            "would write overlay: /overlay.nix",
            "next: import module in NixOS config, then run nixos-rebuild switch",
        ]
    );
}

#[test]
fn deactivations_are_told() {
    let mut record = record();
    record.services.clear();
    record.profiles.clear();
    record.modules.clear();
    assert_eq!(disable_lines(&record, false), ["disabled: hello/default", "restored: /bin/hello"]);
    assert_eq!(
        disable_lines(&record, true),
        [
            "would disable: hello/default",
            "would remove: /bin/hello",
            "would restore: /backup -> /bin/hello",
        ]
    );
    record.links[0].previous = PreviousLink::Absent;
    assert_eq!(disable_lines(&record, false), ["disabled: hello/default", "removed: /bin/hello"]);
    assert_eq!(
        disable_lines(&record, true),
        ["would disable: hello/default", "would remove: /bin/hello", "previous: absent"]
    );
}

fn repo() -> RepoState {
    RepoState {
        base_commit: "base".to_owned(),
        base_commit_present: true,
        head_commit: "head".to_owned(),
        commits_on_top: None,
        dirty: true,
    }
}

#[test]
fn status_tells_of_the_activation_and_the_source() {
    let workspace = Workspace::new("/w".to_owned());
    let tail = [
        "workspace: /w",
        "source: /w/source",
        "fork_point: base",
        "head: head",
        "commits_on_top: unknown",
        "dirty: yes",
        "base_commit_present: yes",
    ];
    let empty = Snapshot { facts: Vec::new() };
    let lines = status_lines(&metadata(), &workspace, &repo(), &None, &empty, &Vec::new());
    assert_eq!(lines[..2], ["fork: hello", "active: no"]);
    assert_eq!(lines[2..], tail);

    let mut record = record();
    record.services.clear();
    record.profiles.clear();
    record.modules.clear();
    let lines = status_lines(
        &metadata(),
        &workspace,
        &repo(),
        &Some(record),
        &empty,
        &Vec::new(),
    );
    assert_eq!(
        lines[..4],
        [
            "fork: hello",
            "active: broken",
            "verified: no",
            "reason: workspace metadata is missing: /w/forkpkg.toml",
        ]
    );
    assert!(lines.contains(&"reason: active link is missing: /bin/hello".to_owned()));
    assert!(lines.contains(&"target: path-shim".to_owned()));
    assert!(lines.contains(&"previous_backup: /backup".to_owned()));
    assert_eq!(lines[lines.len() - 7..], tail);
}

#[test]
fn target_ids_name_every_part() {
    assert_eq!(
        record_target_ids(&record()),
        ["path-shim", "systemd-user:a.service", "nix-profile", "nixos-module"]
    );
}

#[test]
fn info_leaves_out_what_is_unknown() {
    let workspace = Workspace::new("/w".to_owned());
    assert_eq!(
        info_lines(&metadata(), &workspace),
        [
            "package: hello",
            "name: hello-2.12",
            "version: 2.12",
            "label: default",
            "reference: hello",
            "installable: nixpkgs#hello",
            "attribute: hello",
            "system: x86_64-linux",
            "nixpkgs_revision: abc",
            "nixpkgs_resolved_url: github:NixOS/nixpkgs/abc",
            "drv: /nix/store/hello.drv",
            "original_output: /nix/store/hello",
            "original_source: /nix/store/hello-src",
            "source_hash: sha256-n",
            "post_patch_source: /nix/store/post",
            "base_commit: base",
            "workspace: /w",
            "source: /w/source",
        ]
    );
}

#[test]
fn shared_commits_are_told() {
    let export = ExportSummary {
        artifact: "a".to_owned(),
        base_commit: "b".to_owned(),
        head_commit: "h".to_owned(),
        commit_count: 12,
    };
    assert_eq!(
        export_lines(&export),
        ["exported: a", "base_commit: b", "head: h", "commits: 12"]
    );
    let import = ImportSummary {
        artifact: "a".to_owned(),
        method: "fast-forward",
        base_commit: "b".to_owned(),
        head_commit: "h".to_owned(),
        commit_count: 1,
    };
    assert_eq!(
        import_lines(&import),
        ["imported: a", "method: fast-forward", "base_commit: b", "head: h", "commits: 1"]
    );
    assert_eq!(
        apply_lines("fix.patch", false, &repo()),
        [
            "applied: fix.patch",
            "method: git-am",
            "base_commit: base",
            "head: head",
            "commits_on_top: unknown",
        ]
    );
    assert_eq!(apply_lines("/tmp/x", true, &repo())[0], "applied: stdin");
}

// ---- Doctor

fn health(metadata: MetadataFile) -> ForkHealth {
    ForkHealth { workspace: Workspace::new("/forks/hello".to_owned()), metadata }
}

#[test]
fn the_doctor_is_content_with_nothing_wrong() {
    let forks = vec![health(MetadataFile::Parsed { metadata: metadata() })];
    let report = doctor(
        &environment(),
        &forks,
        &Vec::new(),
        &None,
        &Snapshot { facts: Vec::new() },
        &Vec::new(),
    );
    assert_eq!(report.failure, None);
    assert_eq!(
        report.lines,
        [
            "forks_dir: /home/me/.local/share/forkpkg/forks",
            "managed_forks: 1",
            "fork: hello/default active:no workspace:/forks/hello",
            "activations_dir: /home/me/.local/state/forkpkg/activations",
            "activation_records: 0",
            "doctor: ok",
        ]
    );
}

#[test]
fn the_doctor_counts_every_problem() {
    let forks = vec![health(MetadataFile::NotParsed { cause: "cause".to_owned() })];
    let tree = RecordTree::Listed {
        entries: vec![
            RecordTreeEntry::Entry {
                path: "/a".to_owned(),
                file_type: TypeRead::Directory,
                has_record: true,
                file: RecordFile::NotRead { cause: "denied".to_owned() },
                below: Box::new(RecordTree::Listed { entries: Vec::new() }),
            },
            RecordTreeEntry::Entry {
                path: "/b".to_owned(),
                file_type: TypeRead::Directory,
                has_record: true,
                file: RecordFile::Parsed {
                    record: Box::new(ActivationRecord {
                        links: Vec::new(),
                        services: Vec::new(),
                        profiles: Vec::new(),
                        modules: Vec::new(),
                        ..record()
                    }),
                },
                below: Box::new(RecordTree::Listed { entries: Vec::new() }),
            },
        ],
    };
    let report = doctor(
        &environment(),
        &forks,
        &Vec::new(),
        &Some(tree),
        &snapshot_of(&["/nix/store/out"]),
        &Vec::new(),
    );
    assert_eq!(report.failure, Some("doctor found 4 problem(s)".to_owned()));
    assert_eq!(
        report.lines[2..],
        [
            "fork: unknown status:broken workspace:/forks/hello problem:failed to parse /forks/hello/forkpkg.toml",
            "activations_dir: /home/me/.local/state/forkpkg/activations",
            "activation_records: 2",
            "activation_record: /a/activation.toml status:broken",
            "  problem: failed to read activation record /a/activation.toml: denied",
            "activation: hello/default status:broken",
            "  problem: workspace metadata is missing: /w/forkpkg.toml",
            "  problem: source directory is missing: /w/source",
            "doctor: 4 problem(s)",
        ]
    );
}

#[test]
fn the_doctor_tells_of_forks_without_a_home() {
    let homeless = Environment { home: None, ..environment() };
    let forks = vec![health(MetadataFile::Parsed { metadata: metadata() })];
    let report = doctor(
        &homeless,
        &forks,
        &Vec::new(),
        &None,
        &Snapshot { facts: Vec::new() },
        &Vec::new(),
    );
    assert_eq!(report.failure, Some("HOME is not set to an absolute path".to_owned()));
    assert_eq!(
        report.lines.last().unwrap(),
        "fork: hello/default active:broken workspace:/forks/hello problem:HOME is not set to an absolute path"
    );
}

#[test]
fn active_forks_are_seen_by_the_doctor() {
    let metadata = metadata();
    let key = forkpkg::activation::keys::fork_key(&metadata);
    let facts = vec![RecordFacts {
        path: format!("/home/me/.local/state/forkpkg/activations/{key}/activation.toml"),
        target: TargetKind::File,
        file: RecordFile::Parsed { record: Box::new(record()) },
    }];
    let forks = vec![health(MetadataFile::Parsed { metadata })];
    let report = doctor(
        &environment(),
        &forks,
        &facts,
        &None,
        &Snapshot { facts: Vec::new() },
        &Vec::new(),
    );
    assert_eq!(report.lines[2], "fork: hello/default active:yes workspace:/forks/hello");
}

#[test]
fn disabling_all_counts_failures() {
    let valid =
        ActivationRecordEntry::Valid { path: "/r".to_owned(), record: Box::new(record()) };
    let broken =
        ActivationRecordEntry::Broken { path: "/b".to_owned(), problem: "bad".to_owned() };

    let told = disabled_entry(&valid, &None, false);
    assert_eq!(told.lines[0], "disabled: hello/default");
    assert_eq!(told.complaint, None);
    let dry = disabled_entry(&valid, &None, true);
    assert_eq!(dry.lines[0], "would disable: hello/default");
    let failed = disabled_entry(&valid, &Some("no".to_owned()), false);
    assert!(failed.lines.is_empty());
    assert_eq!(failed.complaint, Some("failed to disable hello/default: no".to_owned()));
    let unread = disabled_entry(&broken, &None, true);
    assert_eq!(unread.complaint, Some("failed to read activation record /b: bad".to_owned()));

    assert_eq!(disable_all(&Vec::new()).unwrap(), ["no active forks"]);
    assert!(disable_all(&vec![told, dry]).unwrap().is_empty());
    assert_eq!(
        disable_all(&vec![failed, unread]).unwrap_err().message,
        "2 activation(s) could not be disabled"
    );
}
