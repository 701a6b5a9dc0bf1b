//! Installables, expressions and the commands that are run.
use forkpkg::command::CommandRead;
use forkpkg::git::{init_base_commit, repo_commands, repo_state, InitStep, RepoReads};
use forkpkg::metadata::{
    BaseMetadata, BuildMetadata, ForkMetadata, Metadata, MetadataFile, PackageMetadata,
};
use forkpkg::nix::{
    attribute_message, build_local_source, built_output, flake_identity, flake_metadata,
    flake_metadata_command, local_source_overlay_expr, materialize_post_patch_source,
    materialized_source, nix_string, nix_string_list, package_eval, parse_installable, path_info,
    path_info_command, resolve_installable, FlakeFields, FlakeIdentity, PackageEval, PathRead,
    StorePathInfo,
};

fn metadata() -> Metadata {
    Metadata {
        format: 1,
        fork: ForkMetadata { label: "default".to_owned() },
        package: PackageMetadata {
            installable: "nixpkgs#python3Packages.black".to_owned(),
            flake_ref: "nixpkgs".to_owned(),
            attribute: "python3Packages.black".to_owned(),
            system: "x86_64-linux".to_owned(),
            name: Some("black-24".to_owned()),
            pname: Some("black".to_owned()),
            version: Some("24".to_owned()),
        },
        base: BaseMetadata {
            nixpkgs_revision: None,
            nixpkgs_last_modified: None,
            nixpkgs_locked_nar_hash: None,
            nixpkgs_resolved_url: None,
            nixpkgs_path: None,
            derivation: "drv".to_owned(),
            output: "out".to_owned(),
            source: None,
            source_revision: None,
            source_hash: None,
            source_ca: None,
            post_patch_source: "src".to_owned(),
            post_patch_source_hash: None,
            git_commit: "commit".to_owned(),
        },
        build: BuildMetadata { strategy: "s".to_owned(), patch_handling: "p".to_owned() },
    }
}

fn printed(stdout: &str) -> CommandRead {
    CommandRead::Printed { stdout: stdout.to_owned() }
}

fn exited(status: &str, stderr: &str) -> CommandRead {
    CommandRead::Exited { status: status.to_owned(), stderr: stderr.to_owned() }
}

// ---- Installables

#[test]
fn parses_simple_nixpkgs_installable() {
    let installable = parse_installable("nixpkgs#ripgrep").unwrap();
    assert_eq!(installable.flake_ref, "nixpkgs");
    assert_eq!(installable.attribute, "ripgrep");
    assert_eq!(installable.attr_path, ["ripgrep"]);
}

#[test]
fn parses_nested_attribute_path() {
    let installable = parse_installable("nixpkgs#foo.bar-baz").unwrap();
    assert_eq!(installable.attr_path, ["foo", "bar-baz"]);
}

#[test]
fn rejects_non_flake_installable() {
    assert!(parse_installable("ripgrep").is_err());
}

#[test]
fn rejects_output_selected_installable() {
    assert!(parse_installable("nixpkgs#ripgrep^man").is_err());
}

#[test]
fn refused_installables_are_told_why() {
    let told = |input: &str| parse_installable(input).unwrap_err().message;
    assert_eq!(told("ripgrep"), "expected a flake installable like nixpkgs#ripgrep");
    assert_eq!(told(" #ripgrep"), "expected a flake installable like nixpkgs#ripgrep");
    assert_eq!(told("nixpkgs#"), "expected a flake installable like nixpkgs#ripgrep");
    assert_eq!(
        told("nixpkgs#ripgrep^man"),
        "output-selected installables are not supported yet: nixpkgs#ripgrep^man"
    );
    assert_eq!(told("nixpkgs#..."), "package attribute is empty in installable: nixpkgs#...");
}

// ---- Literals and expressions

#[test]
fn nix_strings_escape_interpolation_and_quotes() {
    assert_eq!(nix_string("a\"b\\${c}\n"), "\"a\\\"b\\\\\\${c}\\n\"");
}

#[test]
fn literals_end_at_their_last_quote() {
    let texts = [
        "", "\"", "\\", "\\\"", "\\\\\"", "a\nb", "a\rb", "a\tb", "\\n", "${a}", "$\\{a}", "\\${a}",
        "a\"; b",
    ];
    let literals: Vec<String> = texts.iter().map(|text| nix_string(text)).collect();
    for literal in &literals {
        let inner: Vec<char> = literal[1..literal.len() - 1].chars().collect();
        let mut escaped = false;
        for c in inner {
            assert!(c != '\n' && c != '\r' && c != '\t', "{literal}");
            assert!(c != '"' || escaped, "{literal}");
            escaped = c == '\\' && !escaped;
        }
        assert!(!escaped, "{literal}");
    }
    for (i, a) in literals.iter().enumerate() {
        for (j, b) in literals.iter().enumerate() {
            assert_eq!(a == b, i == j);
        }
    }
}

#[test]
fn attribute_messages_are_nix_strings() {
    assert_eq!(
        attribute_message("bad\"pkg"),
        "\"package attribute not found: bad\\\"pkg\""
    );
}

#[test]
fn lone_dollars_and_other_control_characters_are_written_plainly() {
    assert_eq!(nix_string("$a\r\t"), "\"$a\\r\\t\"");
    assert_eq!(
        nix_string_list(&vec!["a".to_owned(), "b c".to_owned()]),
        "[ \"a\" \"b c\" ]"
    );
    assert_eq!(nix_string_list(&Vec::new()), "[  ]");
}

#[test]
fn packages_are_looked_up_by_their_path() {
    let installable = parse_installable("nixpkgs#python3Packages.black").unwrap();
    let arguments = package_eval(&installable);
    assert_eq!(arguments[2..6], ["eval", "--json", "--impure", "--expr"]);
    let expression = &arguments[6];
    assert!(expression.contains("builtins.getFlake \"nixpkgs\";"));
    assert!(expression.contains(
        "lib.attrByPath [ \"python3Packages\" \"black\" ] (throw \"package attribute not found: python3Packages.black\") pkgs;"
    ));
    let arguments = materialize_post_patch_source(&installable);
    assert_eq!(
        arguments[2..7],
        ["build", "--impure", "--no-link", "--print-out-paths", "--expr"]
    );
    assert!(arguments[7].contains("phases = [ \"unpackPhase\" \"patchPhase\" \"installPhase\" ];"));
}

#[test]
fn forks_are_built_from_their_source() {
    let read = PathRead::Resolved { path: "/forks/black/source".to_owned() };
    let arguments = build_local_source(&metadata(), "source", &read).unwrap();
    let expression = &arguments[7];
    assert!(expression.contains("flake.legacyPackages.${\"x86_64-linux\"};"));
    assert!(expression.contains("path = \"/forks/black/source\";"));
    assert!(expression.contains("name = \"forkpkg-local-source-black\";"));
    assert!(expression.contains("patches = [];"));
    let overlay = local_source_overlay_expr(&metadata(), "source", &read).unwrap();
    assert!(overlay.starts_with("final: prev:\n"));
    assert!(overlay.contains("path = \"/forks/black/source\";"));
}

#[test]
fn sources_that_cannot_be_resolved_are_told() {
    let read = PathRead::NotResolved { cause: "gone".to_owned() };
    assert_eq!(
        build_local_source(&metadata(), "/src", &read).unwrap_err().message,
        "failed to resolve /src: gone"
    );
    let read = PathRead::NotText { shown: "/s?".to_owned() };
    assert_eq!(
        build_local_source(&metadata(), "/src", &read).unwrap_err().message,
        "source path is not valid UTF-8: /s?"
    );
    let mut empty = metadata();
    empty.package.attribute = "..".to_owned();
    let read = PathRead::Resolved { path: "/src".to_owned() };
    assert_eq!(
        build_local_source(&empty, "/src", &read).unwrap_err().message,
        "metadata package attribute is empty"
    );
}

// ---- Answers of nix

#[test]
fn builds_tell_their_first_path() {
    assert_eq!(built_output(&printed("\n  /nix/store/out \n/nix/store/dev\n")).unwrap(), "/nix/store/out");
    assert_eq!(
        built_output(&printed(" \n")).unwrap_err().message,
        "failed to build local fork: nix build did not print an output path"
    );
    assert_eq!(
        materialized_source(&exited("exit status: 1", "ignored")).unwrap_err().message,
        "failed to materialize post-patch source: nix build failed with status exit status: 1"
    );
    let missing = CommandRead::NotExecuted { cause: "no nix".to_owned() };
    assert_eq!(
        built_output(&missing).unwrap_err().message,
        "failed to build local fork: failed to execute nix build: no nix"
    );
}

#[test]
fn flake_metadata_is_read_from_json() {
    let document = br#"{
        "locked": {"rev": "abc", "lastModified": 7, "narHash": "sha256-x"},
        "revision": "ignored",
        "resolvedUrl": "github:NixOS/nixpkgs",
        "url": "other",
        "path": "/nix/store/src"
    }"#;
    let flake = flake_metadata(document).unwrap();
    assert_eq!(flake.revision, Some("abc".to_owned()));
    assert_eq!(flake.last_modified, Some(7));
    assert_eq!(flake.locked_nar_hash, Some("sha256-x".to_owned()));
    assert_eq!(flake.resolved_url, Some("github:NixOS/nixpkgs".to_owned()));
    assert_eq!(flake.path, Some("/nix/store/src".to_owned()));

    let bare = flake_metadata(b"{}").unwrap();
    assert_eq!(bare.revision, None);
    assert_eq!(bare.last_modified, None);
    assert!(flake_metadata(b"not json").is_err());
}

#[test]
fn what_is_locked_counts_first() {
    let fields = FlakeFields {
        locked_rev: None,
        rev: Some("loose".to_owned()),
        locked_last_modified: Some(1),
        last_modified: Some(2),
        locked_nar_hash: None,
        resolved_url: None,
        url: Some("url".to_owned()),
        path: None,
    };
    let flake = flake_identity(fields);
    assert_eq!(flake.revision, Some("loose".to_owned()));
    assert_eq!(flake.last_modified, Some(1));
    assert_eq!(flake.resolved_url, Some("url".to_owned()));
}

#[test]
fn commands_name_what_they_ask_for() {
    assert_eq!(flake_metadata_command("nixpkgs")[2..], ["flake", "metadata", "--json", "nixpkgs"]);
    assert_eq!(path_info_command("/p")[2..], ["path-info", "--json", "/p"]);
}

#[test]
fn the_first_path_info_counts() {
    let info = StorePathInfo { nar_hash: Some("h".to_owned()), ca: None };
    assert_eq!(path_info(vec![Some(info)]).unwrap().nar_hash, Some("h".to_owned()));
    assert!(path_info(vec![None]).is_none());
    assert!(path_info(Vec::new()).is_none());
}

#[test]
fn installables_are_resolved_with_what_nix_told() {
    let eval = PackageEval {
        system: "x86_64-linux".to_owned(),
        package_name: Some("hello-2".to_owned()),
        package_pname: Some("hello".to_owned()),
        package_version: Some("2".to_owned()),
        derivation: "/drv".to_owned(),
        output: "/out".to_owned(),
        source: Some("/src".to_owned()),
        source_revision: None,
        source_hash: None,
    };
    let flake = FlakeIdentity {
        revision: Some("abc".to_owned()),
        last_modified: None,
        locked_nar_hash: None,
        resolved_url: None,
        path: None,
    };
    let resolved =
        resolve_installable("nixpkgs#hello", eval.clone(), flake.clone(), None).unwrap();
    assert_eq!(resolved.installable.attribute, "hello");
    assert_eq!(resolved.output, "/out");
    assert_eq!(resolved.flake.revision, Some("abc".to_owned()));
    assert!(resolve_installable("hello", eval, flake, None).is_err());
}

// ---- Git

#[test]
fn repository_states_are_read() {
    let reads = RepoReads {
        head: printed("def\n"),
        status: printed(" M file\n"),
        base: printed("abc\n"),
        count: printed("3\n"),
    };
    let repo = repo_state("abc", &reads).unwrap();
    assert_eq!(repo.base_commit, "abc");
    assert!(repo.base_commit_present);
    assert_eq!(repo.head_commit, "def");
    assert_eq!(repo.commits_on_top, Some(3));
    assert!(repo.dirty);

    let gone = RepoReads { base: exited("1", ""), status: printed("\n"), ..reads.clone() };
    let repo = repo_state("abc", &gone).unwrap();
    assert!(!repo.base_commit_present);
    assert_eq!(repo.commits_on_top, None);
    assert!(!repo.dirty);
}

#[test]
fn repository_failures_are_told() {
    let reads = RepoReads {
        head: printed("def\n"),
        status: printed(""),
        base: printed("abc\n"),
        count: printed("many\n"),
    };
    assert_eq!(
        repo_state("abc", &reads).unwrap_err().message,
        "git rev-list returned invalid count: \"many\\n\": invalid digit found in string"
    );
    let failing = RepoReads { head: exited("exit status: 128", "fatal: no repo\n"), ..reads };
    let message = repo_state("abc", &failing).unwrap_err().message;
    assert!(message.contains("exit status: 128"));
    assert!(message.contains("fatal: no repo"));
}

#[test]
fn repository_commands_run_in_the_source() {
    let commands = repo_commands("/src", "abc");
    assert_eq!(commands.head, ["-C", "/src", "rev-parse", "HEAD"]);
    assert_eq!(commands.status, ["-C", "/src", "status", "--porcelain"]);
    assert_eq!(commands.base, ["-C", "/src", "rev-parse", "--verify", "abc^{commit}"]);
    assert_eq!(commands.count, ["-C", "/src", "rev-list", "--count", "abc..HEAD"]);
}

#[test]
fn a_base_commit_takes_six_commands() {
    let mut answers: Vec<CommandRead> = Vec::new();
    let replies = ["", "", "", "A file\n", "", "abc\n"];
    let verbs = ["init", "branch", "add", "status", "-c", "rev-parse"];
    for (reply, verb) in replies.iter().zip(verbs) {
        match init_base_commit("/src", "base", &answers).unwrap() {
            InitStep::Run { arguments } => assert_eq!(arguments[2], verb),
            InitStep::Done { .. } => panic!("done too early"),
        }
        answers.push(printed(reply));
    }
    match init_base_commit("/src", "base", &answers).unwrap() {
        InitStep::Done { commit } => assert_eq!(commit, "abc"),
        InitStep::Run { .. } => panic!("not done"),
    }
}

#[test]
fn an_empty_tree_gets_no_base_commit() {
    let answers = vec![printed(""), printed(""), printed(""), printed(" \n")];
    assert_eq!(
        init_base_commit("/src", "base", &answers).unwrap_err().message,
        "source tree is empty; refusing to create an empty base commit"
    );
    let failing = vec![CommandRead::NotExecuted { cause: "no git".to_owned() }];
    assert_eq!(
        init_base_commit("/src", "base", &failing).unwrap_err().message,
        "failed to execute git: no git"
    );
}

// ---- Metadata

#[test]
fn metadata_files_are_read() {
    let file = MetadataFile::Parsed { metadata: metadata() };
    assert_eq!(Metadata::read("/f", &file).unwrap().package.attribute, "python3Packages.black");
    assert_eq!(metadata().fork_label(), "default");
    let file = MetadataFile::NotRead { cause: "denied".to_owned() };
    assert_eq!(
        Metadata::read("/f", &file).unwrap_err().message,
        "failed to read metadata /f: denied"
    );
    let file = MetadataFile::NotParsed { cause: "bad".to_owned() };
    assert_eq!(Metadata::read("/f", &file).unwrap_err().message, "failed to parse /f: bad");
}
