//! What a build output offers, and choosing how to activate it.
use forkpkg::activation::keys::{fork_key, ActivationPaths};
use forkpkg::activation::plan::Surroundings;
use forkpkg::activation::profiles::{ListingRead, ProfileElement};
use forkpkg::backends::{
    check_options, choose_service, output_looks_service_managed, select_backend,
    select_systemd_user_service_target, shell_display_word, switch_command,
    systemd_user_service_target_count, ActivationBackend, SwitchCommand,
};
use forkpkg::directory::{DirEntry, DirRead, EntryRead, ModeRead, TypeRead};
use forkpkg::discovery::{
    discover_backends, output_bin_executable_count, BackendDetails, BackendFacts,
};
use forkpkg::enabling::{plan_enable, planning_places, EnableFacts, EnableRequest};
use forkpkg::ini::{parse_exec_executable, parse_ini};
use forkpkg::metadata::{
    BaseMetadata, BuildMetadata, ForkMetadata, Metadata, PackageMetadata,
};
use forkpkg::reports::{maybe_switch_backend, targets_lines, SwitchStep};
use forkpkg::snapshot::{
    ContentRead, DigestRead, EntryKind, LinkRead, PathFacts, Snapshot, TargetKind,
};
use forkpkg::targets::{
    candidate_paths, dedupe_targets, discover, output_dirs, systemd_user_service_spec, Candidate, OutputFacts,
    TargetDetails,
};
use forkpkg::workspace::Workspace;

const OUTPUT: &str = "/nix/store/out";

fn entry(path: String, text: &str, mode: u32) -> EntryRead {
    EntryRead::Entry {
        entry: DirEntry {
            path,
            file_type: TypeRead::File,
            mode: ModeRead::File { mode },
            text: ContentRead::Read { text: text.to_owned() },
        },
    }
}

fn nothing() -> OutputFacts {
    OutputFacts {
        output: OUTPUT.to_owned(),
        bin: None,
        share_units: None,
        lib_units: None,
        dbus: None,
        path: "/usr/bin".to_owned(),
        candidates: Vec::new(),
    }
}

fn with_bin() -> OutputFacts {
    OutputFacts {
        bin: Some(DirRead::Listed {
            entries: vec![
                entry(format!("{OUTPUT}/bin/tool"), "", 0o755),
                entry(format!("{OUTPUT}/bin/data"), "", 0o644),
            ],
        }),
        ..nothing()
    }
}

fn units(names: &[&str], exec: &str) -> Option<DirRead> {
    let dir = format!("{OUTPUT}/share/systemd/user");
    let entries = names
        .iter()
        .map(|name| {
            entry(format!("{dir}/{name}"), &format!("[Service]\nExecStart={exec}\n"), 0o644)
        })
        .collect();
    Some(DirRead::Listed { entries })
}

fn with_service() -> OutputFacts {
    let exec = format!("{OUTPUT}/libexec/portal");
    OutputFacts { share_units: units(&["portal.service"], &exec), ..nothing() }
}

fn metadata() -> Metadata {
    Metadata {
        format: 1,
        fork: ForkMetadata { label: "default".to_owned() },
        package: PackageMetadata {
            installable: "nixpkgs#hello".to_owned(),
            flake_ref: "nixpkgs".to_owned(),
            attribute: "hello".to_owned(),
            system: "x86_64-linux".to_owned(),
            name: None,
            pname: None,
            version: None,
        },
        base: BaseMetadata {
            nixpkgs_revision: None,
            nixpkgs_last_modified: None,
            nixpkgs_locked_nar_hash: None,
            nixpkgs_resolved_url: None,
            nixpkgs_path: None,
            derivation: "drv".to_owned(),
            output: "out".to_owned(),
            source: None,
            source_revision: None,
            source_hash: None,
            source_ca: None,
            post_patch_source: "src".to_owned(),
            post_patch_source_hash: None,
            git_commit: "commit".to_owned(),
        },
        build: BuildMetadata { strategy: "s".to_owned(), patch_handling: "p".to_owned() },
    }
}

fn paths() -> ActivationPaths {
    ActivationPaths {
        activations_dir: "/state/activations".to_owned(),
        user_bin_dir: "/home/bin".to_owned(),
        user_config_dir: "/home/config".to_owned(),
    }
}

fn facts(path: &str, target: TargetKind) -> PathFacts {
    PathFacts {
        path: path.to_owned(),
        entry: if target == TargetKind::Directory {
            EntryKind::Directory
        } else {
            EntryKind::Other
        },
        target,
        link: LinkRead::Failed { problem: "no link".to_owned() },
        text: ContentRead::Read { text: String::new() },
        digest: DigestRead::Digest { hex: "00".to_owned() },
    }
}

fn around() -> Surroundings {
    Surroundings {
        paths: paths(),
        records: Vec::new(),
        snapshot: Snapshot {
            facts: vec![
                facts(OUTPUT, TargetKind::Directory),
                facts("/nix/store/out/bin", TargetKind::Directory),
                facts("/nix/store/out/bin/tool", TargetKind::File),
                facts("/nix/store/out/libexec/portal", TargetKind::File),
            ],
        },
        now: 3,
    }
}

fn nothing_listed() -> ListingRead {
    ListingRead::Listed { elements: Vec::new() }
}

// ---- Units

#[test]
fn parses_systemd_execstart_executable() {
    assert_eq!(
        parse_exec_executable("/nix/store/example/bin/tool --flag").unwrap(),
        "/nix/store/example/bin/tool"
    );
    assert_eq!(
        parse_exec_executable("\"/nix/store/example/bin/tool with spaces\" --flag").unwrap(),
        "/nix/store/example/bin/tool with spaces"
    );
    assert_eq!(
        parse_exec_executable("-/nix/store/example/bin/tool").unwrap(),
        "/nix/store/example/bin/tool"
    );
}

#[test]
fn commands_without_an_absolute_path_name_no_executable() {
    assert_eq!(parse_exec_executable("tool --flag"), None);
    assert_eq!(parse_exec_executable("   "), None);
}

#[test]
fn properties_know_their_section() {
    let properties = parse_ini("# comment\nloose=1\n[Service]\n Type = dbus \n; more\nbroken\n[Unit]\nA=b=c\n");
    let shown: Vec<(&str, &str, &str)> = properties
        .iter()
        .map(|one| (one.section.as_str(), one.key.as_str(), one.value.as_str()))
        .collect();
    assert_eq!(shown, [("", "loose", "1"), ("Service", "Type", "dbus"), ("Unit", "A", "b=c")]);
}

#[test]
fn discovers_dbus_backed_systemd_user_service() {
    let executable = format!("{OUTPUT}/libexec/portal");
    let unit = format!("[Service]\nType=dbus\nBusName=org.example.Portal\nExecStart={executable}\n");
    let facts = OutputFacts {
        share_units: Some(DirRead::Listed {
            entries: vec![entry(
                format!("{OUTPUT}/share/systemd/user/portal.service"),
                &unit,
                0o644,
            )],
        }),
        dbus: Some(DirRead::Listed {
            entries: vec![entry(
                format!("{OUTPUT}/share/dbus-1/services/org.example.Portal.service"),
                "[D-BUS Service]\nName=org.example.Portal\nSystemdService=portal.service\nExec=/ignored\n",
                0o644,
            )],
        }),
        ..nothing()
    };

    let report = discover(&facts).unwrap();

    assert_eq!(report.targets.len(), 1);
    assert_eq!(report.targets[0].id, "systemd-user:portal.service");
    assert!(report.targets[0]
        .evidence
        .iter()
        .any(|line| line.contains("D-Bus service org.example.Portal")));
}

#[test]
fn commands_on_the_path_are_matched() {
    let facts = OutputFacts {
        path: "/usr/bin:/home/bin".to_owned(),
        candidates: vec![Candidate {
            path: "/home/bin/tool".to_owned(),
            resolved: Some(format!("{OUTPUT}/bin/tool")),
        }],
        ..with_bin()
    };
    let report = discover(&facts).unwrap();
    assert_eq!(report.targets.len(), 1);
    match &report.targets[0].details {
        TargetDetails::PathShim { executables, path_matches } => {
            assert_eq!(*executables, [format!("{OUTPUT}/bin/tool")]);
            assert_eq!(path_matches.len(), 1);
            assert!(path_matches[0].points_to_output);
        }
        other => panic!("unexpected {other:?}"),
    }
}

#[test]
fn candidates_are_looked_for_on_the_path() {
    let bin = with_bin().bin;
    assert_eq!(
        candidate_paths(OUTPUT, &bin, "/usr/bin:/home/bin/"),
        ["/usr/bin/tool", "/home/bin/tool"]
    );
    assert!(candidate_paths(OUTPUT, &None, "/usr/bin").is_empty());
    let failed = Some(DirRead::Failed { cause: "gone".to_owned() });
    assert!(candidate_paths(OUTPUT, &failed, "/usr/bin").is_empty());
}

#[test]
fn candidates_elsewhere_change_nothing() {
    let elsewhere = OutputFacts {
        candidates: vec![Candidate { path: "/opt/tool".to_owned(), resolved: None }],
        ..with_bin()
    };
    assert_eq!(
        format!("{:?}", discover(&elsewhere).unwrap()),
        format!("{:?}", discover(&with_bin()).unwrap())
    );
}

#[test]
fn four_directories_of_an_output_count() {
    let dirs = output_dirs(OUTPUT);
    assert_eq!(dirs.bin, "/nix/store/out/bin");
    assert_eq!(dirs.share_units, "/nix/store/out/share/systemd/user");
    assert_eq!(dirs.lib_units, "/nix/store/out/lib/systemd/user");
    assert_eq!(dirs.dbus, "/nix/store/out/share/dbus-1/services");
}

#[test]
fn the_first_of_each_id_is_kept() {
    let shared = format!("{OUTPUT}/libexec/shared");
    let local = format!("{OUTPUT}/libexec/local");
    let facts = OutputFacts {
        share_units: units(&["b.service", "a.service"], &shared),
        lib_units: units(&["a.service", "c.service"], &local),
        ..nothing()
    };
    let report = discover(&facts).unwrap();
    let ids: Vec<&str> = report.targets.iter().map(|target| target.id.as_str()).collect();
    assert_eq!(
        ids,
        ["systemd-user:a.service", "systemd-user:b.service", "systemd-user:c.service"]
    );
    assert_eq!(systemd_user_service_spec(&report.targets[0]).unwrap().exec_start, shared);
    let told = format!("{:?}", report.targets);
    assert_eq!(format!("{:?}", dedupe_targets(report.targets.clone())), told);
    let mut twice = report.targets.clone();
    twice.extend(report.targets.clone());
    assert_eq!(format!("{:?}", dedupe_targets(twice)), told);
    assert_eq!(systemd_user_service_spec(&report.targets[2]).unwrap().exec_start, local);
}

#[test]
fn services_without_units_are_reported_once() {
    let facts = OutputFacts {
        dbus: Some(DirRead::Listed {
            entries: vec![entry(
                format!("{OUTPUT}/share/dbus-1/services/a.service"),
                "[D-BUS Service]\nName=org.example.A\nExec=/a\n",
                0o644,
            )],
        }),
        ..nothing()
    };
    let report = discover(&facts).unwrap();
    assert_eq!(report.targets.len(), 1);
    assert!(matches!(report.targets[0].details, TargetDetails::DbusService { .. }));
    assert!(systemd_user_service_spec(&report.targets[0]).is_err());
    assert!(output_looks_service_managed(&facts).unwrap());
}

// ---- Choosing

#[test]
fn nixos_switch_command_uses_sudo_and_optional_flake() {
    let command = switch_command(
        ActivationBackend::NixosModule,
        Some("/home/user/nixos#tower"),
    )
    .unwrap();

    assert_eq!(command.program, "sudo");
    assert_eq!(
        command.args,
        [
            "nixos-rebuild",
            "switch",
            "--flake",
            "/home/user/nixos#tower"
        ]
    );
}

#[test]
fn home_manager_switch_command_does_not_use_sudo() {
    let command = switch_command(ActivationBackend::HomeManagerModule, None).unwrap();

    assert_eq!(command.program, "home-manager");
    assert_eq!(command.args, ["switch"]);
}

#[test]
fn other_backends_have_no_switch_command() {
    let told = |backend| switch_command(backend, None).unwrap_err().message;
    assert_eq!(told(ActivationBackend::Auto), "backend has no switch command: Auto");
    assert_eq!(told(ActivationBackend::NixProfile), "backend has no switch command: NixProfile");
    assert_eq!(told(ActivationBackend::PathShim), "backend has no switch command: PathShim");
    assert_eq!(
        told(ActivationBackend::SystemdUserService),
        "backend has no switch command: SystemdUserService"
    );
}

#[test]
fn words_are_quoted_for_a_shell() {
    assert_eq!(shell_display_word("/home/user/nixos#tower"), "/home/user/nixos#tower");
    assert_eq!(shell_display_word("a b"), "'a b'");
    assert_eq!(shell_display_word("it's"), "'it'\\''s'");
    assert_eq!(shell_display_word(""), "");
    let command = SwitchCommand {
        program: "sudo".to_owned(),
        args: vec!["switch".to_owned(), "a b".to_owned()],
    };
    assert_eq!(command.display(), "sudo switch 'a b'");
    assert!(command.result(&None, &None).is_ok());
    assert_eq!(
        command.result(&None, &Some("exit status: 1".to_owned())).unwrap_err().message,
        "sudo switch 'a b' failed with status exit status: 1"
    );
    assert_eq!(
        command.result(&Some("not found".to_owned()), &None).unwrap_err().message,
        "failed to execute sudo: not found"
    );
}

#[test]
fn services_on_nixos_get_a_module() {
    let auto = ActivationBackend::Auto;
    assert_eq!(select_backend(auto, true, &with_service()).unwrap(), ActivationBackend::NixosModule);
    assert_eq!(select_backend(auto, true, &with_bin()).unwrap(), ActivationBackend::NixProfile);
    assert_eq!(select_backend(auto, false, &with_service()).unwrap(), ActivationBackend::NixProfile);
    let asked = ActivationBackend::PathShim;
    assert_eq!(select_backend(asked, true, &with_service()).unwrap(), asked);
    let failing = OutputFacts {
        dbus: Some(DirRead::Failed { cause: "denied".to_owned() }),
        ..nothing()
    };
    assert!(select_backend(auto, true, &failing).is_err());
    assert!(select_backend(auto, false, &failing).is_ok());
}

#[test]
fn options_have_to_go_together() {
    let told = |backend, profile, switch, flake| {
        check_options(backend, profile, switch, flake).unwrap_err().message
    };
    assert_eq!(
        told(ActivationBackend::PathShim, true, false, false),
        "--profile only applies to --backend nix-profile"
    );
    assert_eq!(
        told(ActivationBackend::NixosModule, false, false, true),
        "--flake only applies with --switch"
    );
    assert_eq!(
        told(ActivationBackend::NixProfile, false, true, false),
        "--switch only applies to module backends; nix-profile activates immediately"
    );
    assert_eq!(
        told(ActivationBackend::SystemdUserService, false, true, false),
        "--switch only applies to Nix module backends"
    );
    assert!(check_options(ActivationBackend::NixosModule, false, true, true).is_ok());
    assert!(check_options(ActivationBackend::NixProfile, true, false, false).is_ok());
}

#[test]
fn exactly_one_service_can_be_chosen() {
    let service = choose_service(&with_service()).unwrap();
    assert_eq!(service.service, "portal.service");
    assert_eq!(service.executable, Some(format!("{OUTPUT}/libexec/portal")));
    assert_eq!(
        choose_service(&nothing()).unwrap_err().message,
        "no supported systemd user service target found"
    );
    let exec = format!("{OUTPUT}/libexec/portal");
    let two = OutputFacts { share_units: units(&["b.service", "a.service"], &exec), ..nothing() };
    assert_eq!(
        choose_service(&two).unwrap_err().message,
        "multiple systemd user service targets found (systemd-user:a.service, systemd-user:b.service)"
    );
    let report = discover(&two).unwrap();
    assert_eq!(systemd_user_service_target_count(&report), 2);
    assert!(select_systemd_user_service_target(&report).is_err());
    let outside = OutputFacts { share_units: units(&["a.service"], "/usr/bin/a"), ..nothing() };
    assert_eq!(
        choose_service(&outside).unwrap_err().message,
        "refusing service activation because target executable is outside the forked output: /usr/bin/a"
    );
}

#[test]
fn switching_is_told_or_done() {
    let module = ActivationBackend::NixosModule;
    assert!(matches!(
        maybe_switch_backend(module, false, None, false).unwrap(),
        SwitchStep::Nothing
    ));
    assert!(matches!(
        maybe_switch_backend(module, true, Some("."), true).unwrap(),
        SwitchStep::Tell { line } if line == "would run: sudo nixos-rebuild switch --flake ."
    ));
    assert!(matches!(
        maybe_switch_backend(ActivationBackend::HomeManagerModule, true, None, false).unwrap(),
        SwitchStep::Run { notice, command }
            if notice == "running home-manager switch" && command.program == "home-manager"
    ));
    assert!(maybe_switch_backend(ActivationBackend::Auto, true, None, false).is_err());
}

// ---- Backends on offer

fn offer(output: OutputFacts, listing: ListingRead, is_nixos: bool) -> BackendFacts {
    BackendFacts {
        output,
        has_share: false,
        has_applications: false,
        listing,
        is_nixos,
        has_home_manager: false,
    }
}

#[test]
fn backends_are_offered_with_their_evidence() {
    let report = discover_backends(
        &metadata(),
        &paths(),
        &Vec::new(),
        &offer(with_bin(), nothing_listed(), false),
    )
    .unwrap();
    assert_eq!(
        targets_lines(&report),
        [
            "output: /nix/store/out",
            "nix-profile kind:nix-profile confidence:high supported:yes active:no",
            "  profile: default",
            "  profile_contains_output: no",
            "  evidence: Nix profile can install the built store output directly",
            "  evidence: Nix owns the profile symlink tree and profile generations",
            "  evidence: output contains files that profiles normally expose",
            "nixos-module kind:nixos-module confidence:low supported:no active:no",
            "  evidence: generated module adds a nixpkgs overlay for the forked package",
            "  evidence: NixOS activation happens through the user's normal nixos-rebuild switch",
            "  evidence: this machine does not look like NixOS",
            "home-manager-module kind:home-manager-module confidence:low supported:no active:no",
            "  evidence: generated module adds a nixpkgs overlay for Home Manager evaluation",
            "  evidence: activation happens through the user's normal home-manager switch",
            "  evidence: home-manager command was not found in PATH",
            "path-shim kind:path-shim confidence:low supported:yes active:no",
            "  executable_count: 1",
            "  evidence: legacy direct activation; bypasses Nix profile/module ownership",
            "  evidence: output has 1 executable(s) in bin/",
            "systemd-user-service kind:systemd-user-service confidence:none supported:no active:no",
            "  service_count: 0",
            "  evidence: legacy direct activation; writes a user systemd override",
            "  evidence: output has 0 supported systemd user service target(s)",
        ]
    );
}

#[test]
fn services_speak_for_a_module() {
    let listing = ListingRead::Listed {
        elements: vec![ProfileElement {
            name: "hello".to_owned(),
            active: true,
            store_paths: vec![OUTPUT.to_owned()],
        }],
    };
    let report = discover_backends(
        &metadata(),
        &paths(),
        &Vec::new(),
        &offer(with_service(), listing, true),
    )
    .unwrap();
    assert_eq!(report.backends[0].confidence, "low");
    assert!(report.backends[0].active);
    assert!(matches!(
        report.backends[0].details,
        BackendDetails::NixProfile { profile: None, profile_contains_output: true }
    ));
    assert_eq!(report.backends[1].confidence, "high");
    assert!(report.backends[1].supported);
    assert!(report.backends[4].supported);
    assert_eq!(output_bin_executable_count(&with_bin()).unwrap(), 1);
    assert_eq!(output_bin_executable_count(&nothing()).unwrap(), 0);
}

#[test]
fn an_unlisted_profile_counts_as_empty() {
    let failing = ListingRead::Exited { status: "1".to_owned(), stderr: String::new() };
    let report = discover_backends(
        &metadata(),
        &paths(),
        &Vec::new(),
        &offer(nothing(), failing, false),
    )
    .unwrap();
    assert!(!report.backends[0].active);
    assert_eq!(report.backends[0].confidence, "medium");
}

// ---- Planning

fn request(backend: ActivationBackend) -> EnableRequest {
    EnableRequest { backend, profile: None, switch: false, flake: None }
}

fn enable_facts(output: OutputFacts) -> EnableFacts {
    let bin = match &output.bin {
        Some(bin) => bin.clone(),
        None => DirRead::Listed { entries: Vec::new() },
    };
    EnableFacts { is_nixos: true, output, bin, active: None }
}

#[test]
fn every_backend_plans_its_record() {
    let workspace = Workspace::new("/w".to_owned());
    let plan = |backend, output| {
        plan_enable(
            &request(backend),
            &metadata(),
            &workspace,
            &enable_facts(output),
            &around(),
        )
        .unwrap()
    };
    let auto = plan(ActivationBackend::Auto, with_bin());
    assert_eq!(auto.backend, ActivationBackend::NixProfile);
    assert_eq!(auto.record.profiles.len(), 1);
    assert_eq!(auto.record.package, "hello/default");
    let managed = plan(ActivationBackend::Auto, with_service());
    assert_eq!(managed.backend, ActivationBackend::NixosModule);
    assert_eq!(managed.record.modules.len(), 1);
    assert_eq!(plan(ActivationBackend::PathShim, with_bin()).record.links.len(), 1);
    let service = plan(ActivationBackend::SystemdUserService, with_service());
    assert_eq!(service.record.services[0].service, "portal.service");
    assert_eq!(
        plan(ActivationBackend::HomeManagerModule, with_bin()).record.mode,
        "home-manager-module"
    );
}

#[test]
fn planning_looks_at_links_backups_and_overrides() {
    let key = fork_key(&metadata());
    assert_eq!(
        planning_places(&metadata(), &paths(), &enable_facts(with_bin())),
        [
            OUTPUT.to_owned(),
            format!("{OUTPUT}/bin"),
            "/home/bin/tool".to_owned(),
            format!("/state/activations/{key}/backups/tool"),
            format!("{OUTPUT}/bin/tool"),
        ]
    );
    assert_eq!(
        planning_places(&metadata(), &paths(), &enable_facts(with_service())),
        [
            OUTPUT.to_owned(),
            format!("{OUTPUT}/bin"),
            "/home/config/systemd/user/portal.service.d/forkpkg.conf".to_owned(),
            format!("{OUTPUT}/libexec/portal"),
        ]
    );
}

#[test]
fn planning_reads_its_places_alone() {
    let workspace = Workspace::new("/w".to_owned());
    let mut more = around();
    more.snapshot.facts.push(facts("/home/bin/other", TargetKind::File));
    for backend in [ActivationBackend::PathShim, ActivationBackend::NixProfile] {
        let plan = |around: &Surroundings| {
            plan_enable(
                &request(backend),
                &metadata(),
                &workspace,
                &enable_facts(with_bin()),
                around,
            )
            .unwrap()
        };
        assert_eq!(format!("{:?}", plan(&around())), format!("{:?}", plan(&more)));
    }
}

#[test]
fn plans_are_refused_for_their_options_first() {
    let workspace = Workspace::new("/w".to_owned());
    let mut asked = request(ActivationBackend::PathShim);
    asked.profile = Some("/p".to_owned());
    let error = plan_enable(
        &asked,
        &metadata(),
        &workspace,
        &enable_facts(nothing()),
        &around(),
    )
    .unwrap_err();
    assert_eq!(error.message, "--profile only applies to --backend nix-profile");
    let error = plan_enable(
        &request(ActivationBackend::PathShim),
        &metadata(),
        &workspace,
        &enable_facts(nothing()),
        &around(),
    )
    .unwrap_err();
    assert_eq!(
        error.message,
        "build output has no executable entries in /nix/store/out/bin"
    );
}
