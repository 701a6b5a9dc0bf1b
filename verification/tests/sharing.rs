//! Sharing the commits of a fork.
use forkpkg::archive::{Attributes, HeadRead, MemberPath, Recorded};
use forkpkg::git::RepoState;
use forkpkg::hashing::ContentHash;
use forkpkg::metadata::{
    BaseMetadata, BuildMetadata, ForkMetadata, Metadata, PackageMetadata,
};
use forkpkg::sharing::{
    check_export, check_target, export_changes, import_changes, import_summary, member_contents,
    member_slot, read_artifact, short_hash, unpack_artifact, validate_share_metadata, write_artifact,
    ImportStep, ImportTask, Payload, ShareArtifact, ShareBase, ShareChanges, SharePackage, Slot, BUNDLE_ENTRY,
    PATCH_ENTRY, SHARE_METADATA,
};

fn sample_share() -> ShareArtifact {
    ShareArtifact {
        format: 1,
        kind: "forkpkg-share".to_owned(),
        package: SharePackage {
            installable: "nixpkgs#hello".to_owned(),
            flake_ref: "nixpkgs".to_owned(),
            attribute: "hello".to_owned(),
            system: "x86_64-linux".to_owned(),
            name: Some("hello-2.12.2".to_owned()),
            pname: Some("hello".to_owned()),
            version: Some("2.12.2".to_owned()),
        },
        base: ShareBase {
            nixpkgs_revision: Some("abc123".to_owned()),
            nixpkgs_last_modified: Some(1),
            nixpkgs_locked_nar_hash: Some("sha256-test".to_owned()),
            nixpkgs_resolved_url: Some("github:NixOS/nixpkgs/abc123".to_owned()),
            derivation: "/nix/store/example.drv".to_owned(),
            output: "/nix/store/example-hello".to_owned(),
            source: Some("/nix/store/source".to_owned()),
            source_revision: Some("def456".to_owned()),
            source_hash: Some("sha256-source".to_owned()),
            source_ca: Some("fixed:r:sha256:source".to_owned()),
            post_patch_source_hash: Some("sha256-post-patch".to_owned()),
            git_commit: "0123456789abcdef".to_owned(),
            git_tree: "abcdef0123456789".to_owned(),
        },
        changes: ShareChanges {
            base_commit: "0123456789abcdef".to_owned(),
            base_tree: "abcdef0123456789".to_owned(),
            head_commit: "fedcba9876543210".to_owned(),
            commit_count: 2,
            bundle_path: BUNDLE_ENTRY.to_owned(),
            patch_path: PATCH_ENTRY.to_owned(),
        },
    }
}

/// The fork that the sample was exported from.
fn sample_metadata() -> Metadata {
    let share = sample_share();
    Metadata {
        format: 1,
        fork: ForkMetadata { label: "default".to_owned() },
        package: PackageMetadata {
            installable: share.package.installable,
            flake_ref: share.package.flake_ref,
            attribute: share.package.attribute,
            system: share.package.system,
            name: share.package.name,
            pname: share.package.pname,
            version: share.package.version,
        },
        base: BaseMetadata {
            nixpkgs_revision: share.base.nixpkgs_revision,
            nixpkgs_last_modified: share.base.nixpkgs_last_modified,
            nixpkgs_locked_nar_hash: share.base.nixpkgs_locked_nar_hash,
            nixpkgs_resolved_url: share.base.nixpkgs_resolved_url,
            nixpkgs_path: None,
            derivation: share.base.derivation,
            output: share.base.output,
            source: share.base.source,
            source_revision: share.base.source_revision,
            source_hash: share.base.source_hash,
            source_ca: share.base.source_ca,
            post_patch_source: "/nix/store/post".to_owned(),
            post_patch_source_hash: share.base.post_patch_source_hash,
            git_commit: share.base.git_commit,
        },
        build: BuildMetadata { strategy: "s".to_owned(), patch_handling: "p".to_owned() },
    }
}

fn repo() -> RepoState {
    RepoState {
        base_commit: "0123456789abcdef".to_owned(),
        base_commit_present: true,
        head_commit: "fedcba9876543210".to_owned(),
        commits_on_top: Some(2),
        dirty: false,
    }
}

fn payload(contents: &[u8]) -> Payload {
    Payload {
        attributes: Attributes { mode: 0o644, mtime: 5, uid: 1000, gid: 100 },
        contents: contents.to_vec(),
    }
}

fn archive_of(members: &[(&str, &[u8], tar::EntryType)]) -> Vec<u8> {
    let mut builder = tar::Builder::new(Vec::new());
    for (name, contents, kind) in members {
        let mut header = tar::Header::new_gnu();
        header.set_entry_type(*kind);
        header.set_size(contents.len() as u64);
        header.set_mode(0o644);
        builder.append_data(&mut header, name, *contents).unwrap();
    }
    builder.into_inner().unwrap()
}

// ---- Artifacts

#[test]
fn share_artifact_round_trips_metadata_and_payloads() {
    let metadata = b"format = 1\nkind = \"forkpkg-share\"\n".to_vec();

    let bytes = write_artifact(&metadata, &payload(b"bundle"), &payload(b"patch")).unwrap();

    let extracted = read_artifact(&bytes).unwrap();
    assert_eq!(extracted.metadata, metadata);
    assert_eq!(extracted.bundle, b"bundle");
    assert_eq!(extracted.patch, b"patch");
}

#[test]
fn artifacts_keep_the_attributes_of_their_files() {
    let attributes = Attributes { mode: 0o100600, mtime: 1 << 40, uid: 1 << 33, gid: 100 };
    let bundle = Payload { attributes, contents: b"bundle".to_vec() };

    let bytes = write_artifact(&b"metadata".to_vec(), &bundle, &payload(b"patch")).unwrap();

    let headers = unpack_artifact(&bytes).unwrap().headers;
    assert_eq!((headers.metadata.mode, headers.metadata.uid), (Some(0o644), None));
    assert_eq!(
        headers.bundle,
        Recorded {
            mode: Some(0o100600),
            mtime: Some(1 << 40),
            uid: Some(1 << 33),
            gid: Some(100),
        }
    );
    assert_eq!(headers.patch.mtime, Some(5));

    let mut archive = tar::Archive::new(bytes.as_slice());
    let told: Vec<(Option<u32>, Option<u64>, Option<u64>, Option<u64>)> = archive
        .entries()
        .unwrap()
        .map(|entry| {
            let entry = entry.unwrap();
            let header = entry.header();
            (
                header.mode().ok(),
                header.mtime().ok(),
                header.uid().ok(),
                header.gid().ok(),
            )
        })
        .collect();
    assert_eq!(
        told,
        vec![
            (Some(0o644), Some(0), None, None),
            (Some(0o100600), Some(1 << 40), Some(1 << 33), Some(100)),
            (Some(0o644), Some(5), Some(1000), Some(100)),
        ]
    );
}

#[test]
fn share_artifact_rejects_unexpected_entries() {
    let bytes = archive_of(&[("surprise", b"bad", tar::EntryType::Regular)]);

    assert!(read_artifact(&bytes).is_err());
}

#[test]
fn empty_and_large_payloads_round_trip() {
    let large: Vec<u8> = (0..5000u32).map(|i| (i % 251) as u8).collect();
    let bytes = write_artifact(&Vec::new(), &payload(&large), &payload(b"")).unwrap();
    let extracted = read_artifact(&bytes).unwrap();
    assert!(extracted.metadata.is_empty());
    assert_eq!(extracted.bundle, large);
    assert!(extracted.patch.is_empty());
}

#[test]
fn artifacts_that_are_incomplete_or_odd_are_refused() {
    let told = |bytes: &[u8]| read_artifact(bytes).unwrap_err().message;
    let regular = tar::EntryType::Regular;
    assert_eq!(
        told(&archive_of(&[(SHARE_METADATA, b"", regular), (BUNDLE_ENTRY, b"", regular)])),
        "artifact is missing required metadata, bundle, or patch payload"
    );
    assert_eq!(
        told(&archive_of(&[("surprise", b"bad", regular)])),
        "artifact contains unexpected entry: surprise"
    );
    assert_eq!(
        told(&archive_of(&[("dir", b"", tar::EntryType::Directory)])),
        "artifact contains a non-file entry"
    );
    assert!(told(b"this is no archive").starts_with("failed to read artifact entry: "));
}

#[test]
fn names_that_end_in_a_slash_make_directories() {
    let told = |bytes: &[u8]| read_artifact(bytes).unwrap_err().message;
    let regular = tar::EntryType::Regular;
    let slashed = "commits.bundle/";
    assert_eq!(
        told(&archive_of(&[
            (SHARE_METADATA, b"m", regular),
            (slashed, b"b", regular),
            (PATCH_ENTRY, b"p", regular),
        ])),
        "artifact is missing required metadata, bundle, or patch payload"
    );
    assert_eq!(
        told(&archive_of(&[(slashed, b"b", regular), (BUNDLE_ENTRY, b"b", regular)])),
        "failed to extract commits.bundle: Is a directory (os error 21)"
    );
    assert_eq!(
        told(&archive_of(&[(BUNDLE_ENTRY, b"b", regular), (slashed, b"b", regular)])),
        "failed to extract commits.bundle: File exists (os error 17)"
    );

    let mut builder = tar::Builder::new(Vec::new());
    for (name, contents) in [(SHARE_METADATA, b"m"), (slashed, b"b"), (PATCH_ENTRY, b"p")] {
        let mut header = tar::Header::new_ustar();
        header.set_size(1);
        header.set_mode(0o644);
        builder.append_data(&mut header, name, contents.as_slice()).unwrap();
    }
    let extracted = read_artifact(&builder.into_inner().unwrap()).unwrap();
    assert_eq!(extracted.bundle, b"b");
}

#[test]
fn of_several_members_with_one_name_the_last_counts() {
    let regular = tar::EntryType::Regular;
    let bytes = archive_of(&[
        (SHARE_METADATA, b"m", regular),
        (BUNDLE_ENTRY, b"old", regular),
        (PATCH_ENTRY, b"p", regular),
        (BUNDLE_ENTRY, b"new", regular),
    ]);
    assert_eq!(read_artifact(&bytes).unwrap().bundle, b"new");
}

/// A header of a sparse file that declares an absurd size and goes on in another block.
fn sparse_header() -> Vec<u8> {
    let mut header = tar::Header::new_gnu();
    header.set_path(BUNDLE_ENTRY).unwrap();
    header.set_entry_type(tar::EntryType::GNUSparse);
    header.set_size(u64::MAX - 1023);
    header.set_mode(0o644);
    header.as_gnu_mut().unwrap().set_is_extended(true);
    header.set_cksum();
    header.as_bytes().to_vec()
}

#[test]
fn archives_with_a_sparse_map_are_refused_unread() {
    let mut bytes = sparse_header();
    bytes.extend([0u8; 512]);
    assert_eq!(
        read_artifact(&bytes).unwrap_err().message,
        "artifact contains a non-file entry"
    );
}

#[test]
fn payloads_come_back_whatever_they_hold() {
    let metadata = sparse_header();
    let twice = [sparse_header(), sparse_header()].concat();
    for contents in [&twice[..483], &twice[..512], &twice] {
        let bytes = write_artifact(&metadata, &payload(contents), &payload(contents)).unwrap();
        let extracted = read_artifact(&bytes).unwrap();
        assert_eq!(extracted.metadata, metadata);
        assert_eq!(extracted.bundle, contents);
        assert_eq!(extracted.patch, contents);
    }
}

/// A pax header that gives the member after it a size.
fn pax_header(size: usize) -> Vec<u8> {
    let body = format!(" size={size}\n");
    let length = body.len() + if body.len() < 9 { 1 } else { 2 };
    let record = format!("{length}{body}");
    let mut header = tar::Header::new_ustar();
    header.set_path("pax").unwrap();
    header.set_entry_type(tar::EntryType::XHeader);
    header.set_size(record.len() as u64);
    header.set_mode(0o644);
    header.set_cksum();
    let mut bytes = header.as_bytes().to_vec();
    bytes.extend(record.as_bytes());
    bytes.resize(1024, 0);
    bytes
}

#[test]
fn sizes_in_pax_headers_are_followed() {
    let mut builder = tar::Builder::new(Vec::new());
    let mut header = tar::Header::new_gnu();
    header.set_size(0);
    header.set_mode(0o644);
    builder.append_data(&mut header, SHARE_METADATA, b"".as_slice()).unwrap();
    let bundle = builder.into_inner().unwrap();
    let member = |name: &str, contents: &[u8]| {
        let mut bytes = archive_of(&[(name, contents, tar::EntryType::Regular)]);
        bytes.truncate(bytes.len() - 1024);
        bytes
    };
    let mut sized = pax_header(3);
    let mut header = tar::Header::new_gnu();
    header.set_path(BUNDLE_ENTRY).unwrap();
    header.set_size(0);
    header.set_mode(0o644);
    header.set_cksum();
    sized.extend(header.as_bytes());
    sized.extend(b"abc");
    sized.resize(2048, 0);

    let mut bytes = bundle[..512].to_vec();
    bytes.extend(&sized);
    bytes.extend(member(PATCH_ENTRY, b"p"));
    bytes.extend([0u8; 1024]);
    assert_eq!(read_artifact(&bytes).unwrap().bundle, b"abc");

    let mut hidden = pax_header(1024);
    hidden.extend(header.as_bytes());
    hidden.extend([0u8; 512]);
    hidden.extend(sparse_header());
    let mut bytes = bundle[..512].to_vec();
    bytes.extend(&hidden);
    bytes.extend([0u8; 1024]);
    assert_eq!(
        read_artifact(&bytes).unwrap_err().message,
        "artifact contains a non-file entry"
    );
}

#[test]
fn members_are_put_in_their_places() {
    let head = |path: &str| HeadRead::Head {
        is_file: true,
        is_ustar: false,
        path: MemberPath::Path { path: path.to_owned() },
        size: 3,
    };
    assert!(matches!(member_slot(&head("./commits.patch")), Err(_)));
    assert!(matches!(member_slot(&head("commits.patch")), Ok(Slot::Patch)));
    assert!(matches!(member_slot(&head("commits.bundle")), Ok(Slot::Bundle)));
    assert!(matches!(member_slot(&head("forkpkg-share.toml")), Ok(Slot::Metadata)));
    let invalid = HeadRead::Head {
        is_file: true,
        is_ustar: false,
        path: MemberPath::Invalid { cause: "bad".to_owned() },
        size: 0,
    };
    assert_eq!(
        member_slot(&invalid).unwrap_err().message,
        "artifact entry path is invalid: bad"
    );
    let broken = HeadRead::NotRead { cause: "short".to_owned() };
    assert_eq!(
        member_slot(&broken).unwrap_err().message,
        "failed to read artifact entry: short"
    );
    assert_eq!(member_contents(Slot::Patch, &head("x"), Ok(vec![1, 2, 3])).unwrap(), [1, 2, 3]);
    assert_eq!(
        member_contents(Slot::Patch, &head("x"), Ok(vec![1])).unwrap_err().message,
        "failed to extract commits.patch: failed to write entire file"
    );
    assert_eq!(
        member_contents(Slot::Bundle, &head("x"), Err("eof".to_owned())).unwrap_err().message,
        "failed to extract commits.bundle: eof"
    );
}

#[test]
fn short_hash_handles_short_inputs() {
    assert_eq!(short_hash("abcdef"), "abcdef");
    assert_eq!(short_hash("abcdefghijklmnop"), "abcdefghijkl");
    assert_eq!(SHARE_METADATA, "forkpkg-share.toml");
}

#[test]
fn short_hash_never_splits_a_character() {
    assert_eq!(short_hash("abcdefghijk\u{e9}x"), "abcdefghijk\u{e9}x");
    assert_eq!(short_hash("abcdefghij\u{e9}xyz"), "abcdefghij\u{e9}");
}

// ---- Exporting

#[test]
fn exports_fit_the_fork_they_come_from() {
    let metadata = sample_metadata();
    let export =
        export_changes("out.forkpkg", false, &metadata, &repo(), "abcdef0123456789").unwrap();
    assert_eq!(export.summary.artifact, "out.forkpkg");
    assert_eq!(export.summary.commit_count, 2);
    assert_eq!(export.share.changes.head_commit, "fedcba9876543210");
    assert_eq!(export.share.changes.base_tree, "abcdef0123456789");
    assert!(validate_share_metadata(&export.share, &metadata).is_ok());
}

#[test]
fn refused_exports_are_told_why() {
    let metadata = sample_metadata();
    let told = |taken: bool, repo: &RepoState| {
        check_export("out", taken, &metadata, repo).unwrap_err().message
    };
    assert_eq!(told(true, &repo()), "refusing to overwrite existing artifact: out");
    assert_eq!(
        told(false, &RepoState { base_commit_present: false, ..repo() }),
        "base commit is missing from source repo: 0123456789abcdef"
    );
    assert_eq!(
        told(false, &RepoState { dirty: true, ..repo() }),
        "source has uncommitted changes; commit or stash them before exporting"
    );
    assert_eq!(
        told(false, &RepoState { commits_on_top: None, ..repo() }),
        "could not count commits on top of the base commit"
    );
    assert_eq!(
        told(false, &RepoState { commits_on_top: Some(0), ..repo() }),
        "fork has no commits on top of the base commit to export"
    );
    assert_eq!(check_export("out", false, &metadata, &repo()).unwrap(), 2);
}

// ---- Importing

#[test]
fn mismatches_are_listed_in_order() {
    let mut share = sample_share();
    share.package.system = "aarch64-linux".to_owned();
    share.base.source = None;
    assert_eq!(
        validate_share_metadata(&share, &sample_metadata()).unwrap_err().message,
        "artifact does not match this fork:\n  package.system: artifact=\"aarch64-linux\" target=\"x86_64-linux\"\n  base.source: artifact=None target=Some(\"/nix/store/source\")"
    );
    share.format = 2;
    assert_eq!(
        validate_share_metadata(&share, &sample_metadata()).unwrap_err().message,
        "unsupported forkpkg share artifact"
    );
}

#[test]
fn targets_have_to_be_clean() {
    assert!(check_target(&sample_metadata(), &repo()).is_ok());
    assert_eq!(
        check_target(&sample_metadata(), &RepoState { dirty: true, ..repo() })
            .unwrap_err()
            .message,
        "target source has uncommitted changes; commit or stash them before importing"
    );
    assert_eq!(
        check_target(&sample_metadata(), &RepoState { base_commit_present: false, ..repo() })
            .unwrap_err()
            .message,
        "target fork is missing its recorded base commit: 0123456789abcdef"
    );
    let other = import_changes(
        &sample_share(),
        &sample_metadata(),
        &repo(),
        "other-tree",
        &Vec::new(),
    );
    assert_eq!(
        other.unwrap_err().message,
        "base tree mismatch; artifact expects abcdef0123456789, target fork has other-tree"
    );
}

fn next(metadata: &Metadata, answers: &[bool]) -> ImportStep {
    import_changes(&sample_share(), metadata, &repo(), "abcdef0123456789", &answers.to_vec())
        .unwrap()
}

#[test]
fn the_bundle_is_used_on_the_very_same_base() {
    let metadata = sample_metadata();
    assert!(matches!(
        next(&metadata, &[]),
        ImportStep::Perform { task: ImportTask::VerifyBundle }
    ));
    assert!(matches!(
        next(&metadata, &[true]),
        ImportStep::Perform { task: ImportTask::FetchBundle { target_ref } }
            if target_ref == "refs/forkpkg/imports/fedcba987654"
    ));
    assert!(matches!(
        next(&metadata, &[true, true, true]),
        ImportStep::Imported { method: "already-present" }
    ));
    assert!(matches!(
        next(&metadata, &[true, true, false, true]),
        ImportStep::Perform { task: ImportTask::FastForward { .. } }
    ));
    assert!(matches!(
        next(&metadata, &[true, true, false, true, true]),
        ImportStep::Imported { method: "fast-forward" }
    ));
    assert!(matches!(
        next(&metadata, &[true, true, false, false]),
        ImportStep::Perform { task: ImportTask::CherryPick { base, .. } }
            if base == "0123456789abcdef"
    ));
    assert!(matches!(
        next(&metadata, &[true, true, false, false, true]),
        ImportStep::Imported { method: "cherry-pick" }
    ));
}

#[test]
fn patches_are_used_on_another_commit_with_the_same_tree() {
    let mut metadata = sample_metadata();
    metadata.base.git_commit = "another".to_owned();
    assert!(matches!(
        next(&metadata, &[]),
        ImportStep::Perform { task: ImportTask::ApplyMailbox }
    ));
    assert!(matches!(next(&metadata, &[true]), ImportStep::Imported { method: "git-am" }));
    let summary = import_summary("a.forkpkg", "git-am", &metadata, "head", &sample_share());
    assert_eq!(summary.base_commit, "another");
    assert_eq!(summary.commit_count, 2);
}

// ---- Hashing

#[test]
fn contents_are_hashed_piece_by_piece() {
    let mut hash = ContentHash::new();
    hash.update(b"hello ");
    hash.update(b"world");
    assert_eq!(hash.finish(), blake3::hash(b"hello world").to_hex().to_string());
    assert_eq!(
        ContentHash::new().finish(),
        "af1349b9f5f9a1a6a0404dea36dcc9499bcb25c9adc112b7cc9a93cae41f3262"
    );
}
