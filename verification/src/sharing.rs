//! Sharing the commits of a fork as a single file.
use vstd::prelude::*;


use crate::archive::{
    self, append_member, append_ownerless, finds_extended_map, finish_builder, new_builder,
    read_attributes, read_heads, read_member, Attributes, HeadRead, HeadView, MemberPath, Recorded,
};
use crate::copying::Copied;
use crate::git::{RepoState, RepoView};
use crate::metadata::{Metadata, MetadataView};
use crate::paths::{self, paths_match};
use crate::text::{
    self, cat2, cat3, cat4, cat5, chars_of, debug_of, fail, join, push_line, same, same_option,
    slice_of, Error, Text,
};

verus! {

/// The names of what an artifact holds.
pub const SHARE_METADATA: &'static str = "forkpkg-share.toml";

pub const BUNDLE_ENTRY: &'static str = "commits.bundle";

pub const PATCH_ENTRY: &'static str = "commits.patch";

// ---- What is shared

#[derive(Debug, PartialEq, Eq)]
pub struct ShareArtifact {
    pub format: u32,
    pub kind: String,
    pub package: SharePackage,
    pub base: ShareBase,
    pub changes: ShareChanges,
}

#[derive(Debug, PartialEq, Eq)]
pub struct SharePackage {
    pub installable: String,
    pub flake_ref: String,
    pub attribute: String,
    pub system: String,
    pub name: Option<String>,
    pub pname: Option<String>,
    pub version: Option<String>,
}

#[derive(Debug, PartialEq, Eq)]
pub struct ShareBase {
    pub nixpkgs_revision: Option<String>,
    pub nixpkgs_last_modified: Option<u64>,
    pub nixpkgs_locked_nar_hash: Option<String>,
    pub nixpkgs_resolved_url: Option<String>,
    pub derivation: String,
    pub output: String,
    pub source: Option<String>,
    pub source_revision: Option<String>,
    pub source_hash: Option<String>,
    pub source_ca: Option<String>,
    pub post_patch_source_hash: Option<String>,
    pub git_commit: String,
    pub git_tree: String,
}

#[derive(Debug, PartialEq, Eq)]
pub struct ShareChanges {
    pub base_commit: String,
    pub base_tree: String,
    pub head_commit: String,
    pub commit_count: u64,
    pub bundle_path: String,
    pub patch_path: String,
}

pub struct ShareView {
    pub format: u32,
    pub kind: Text,
    pub package: SharePackageView,
    pub base: ShareBaseView,
    pub changes: ShareChangesView,
}

pub struct SharePackageView {
    pub installable: Text,
    pub flake_ref: Text,
    pub attribute: Text,
    pub system: Text,
    pub name: Option<Text>,
    pub pname: Option<Text>,
    pub version: Option<Text>,
}

pub struct ShareBaseView {
    pub nixpkgs_revision: Option<Text>,
    pub nixpkgs_last_modified: Option<u64>,
    pub nixpkgs_locked_nar_hash: Option<Text>,
    pub nixpkgs_resolved_url: Option<Text>,
    pub derivation: Text,
    pub output: Text,
    pub source: Option<Text>,
    pub source_revision: Option<Text>,
    pub source_hash: Option<Text>,
    pub source_ca: Option<Text>,
    pub post_patch_source_hash: Option<Text>,
    pub git_commit: Text,
    pub git_tree: Text,
}

pub struct ShareChangesView {
    pub base_commit: Text,
    pub base_tree: Text,
    pub head_commit: Text,
    pub commit_count: u64,
    pub bundle_path: Text,
    pub patch_path: Text,
}

impl DeepView for SharePackage {
    type V = SharePackageView;

    open spec fn deep_view(&self) -> SharePackageView {
        SharePackageView {
            installable: self.installable@,
            flake_ref: self.flake_ref@,
            attribute: self.attribute@,
            system: self.system@,
            name: self.name.deep_view(),
            pname: self.pname.deep_view(),
            version: self.version.deep_view(),
        }
    }
}

impl DeepView for ShareBase {
    type V = ShareBaseView;

    open spec fn deep_view(&self) -> ShareBaseView {
        ShareBaseView {
            nixpkgs_revision: self.nixpkgs_revision.deep_view(),
            nixpkgs_last_modified: self.nixpkgs_last_modified,
            nixpkgs_locked_nar_hash: self.nixpkgs_locked_nar_hash.deep_view(),
            nixpkgs_resolved_url: self.nixpkgs_resolved_url.deep_view(),
            derivation: self.derivation@,
            output: self.output@,
            source: self.source.deep_view(),
            source_revision: self.source_revision.deep_view(),
            source_hash: self.source_hash.deep_view(),
            source_ca: self.source_ca.deep_view(),
            post_patch_source_hash: self.post_patch_source_hash.deep_view(),
            git_commit: self.git_commit@,
            git_tree: self.git_tree@,
        }
    }
}

impl DeepView for ShareChanges {
    type V = ShareChangesView;

    open spec fn deep_view(&self) -> ShareChangesView {
        ShareChangesView {
            base_commit: self.base_commit@,
            base_tree: self.base_tree@,
            head_commit: self.head_commit@,
            commit_count: self.commit_count,
            bundle_path: self.bundle_path@,
            patch_path: self.patch_path@,
        }
    }
}

impl DeepView for ShareArtifact {
    type V = ShareView;

    open spec fn deep_view(&self) -> ShareView {
        ShareView {
            format: self.format,
            kind: self.kind@,
            package: self.package.deep_view(),
            base: self.base.deep_view(),
            changes: self.changes.deep_view(),
        }
    }
}

#[derive(Debug)]
pub struct ExportSummary {
    pub artifact: String,
    pub base_commit: String,
    pub head_commit: String,
    pub commit_count: u64,
}

#[derive(Debug)]
pub struct ImportSummary {
    pub artifact: String,
    pub method: &'static str,
    pub base_commit: String,
    pub head_commit: String,
    pub commit_count: u64,
}

pub struct ExportSummaryView {
    pub artifact: Text,
    pub base_commit: Text,
    pub head_commit: Text,
    pub commit_count: u64,
}

pub struct ImportSummaryView {
    pub artifact: Text,
    pub method: Text,
    pub base_commit: Text,
    pub head_commit: Text,
    pub commit_count: u64,
}

impl DeepView for ExportSummary {
    type V = ExportSummaryView;

    open spec fn deep_view(&self) -> ExportSummaryView {
        ExportSummaryView {
            artifact: self.artifact@,
            base_commit: self.base_commit@,
            head_commit: self.head_commit@,
            commit_count: self.commit_count,
        }
    }
}

impl DeepView for ImportSummary {
    type V = ImportSummaryView;

    open spec fn deep_view(&self) -> ImportSummaryView {
        ImportSummaryView {
            artifact: self.artifact@,
            method: self.method@,
            base_commit: self.base_commit@,
            head_commit: self.head_commit@,
            commit_count: self.commit_count,
        }
    }
}

// ---- Exporting

/// The refusal to write an artifact over something that is there.
pub open spec fn output_refusal(output: Text, taken: bool) -> Option<Text> {
    if taken {
        Some("refusing to overwrite existing artifact: "@ + output)
    } else {
        None
    }
}

/// Checks that an artifact will not overwrite anything.
pub fn check_output(output: &str, taken: bool) -> (r: Result<(), Error>)
    ensures
        text::refusal(r) == output_refusal(output@, taken),
{
    if taken {
        return Err(fail(cat2("refusing to overwrite existing artifact: ", output)));
    }
    Ok(())
}

/// The number of commits to export, or why there is nothing to export.
pub open spec fn exportable(output: Text, taken: bool, m: MetadataView, repo: RepoView) -> Result<
    u64,
    Text,
> {
    if let Some(problem) = output_refusal(output, taken) {
        Err(problem)
    } else if !repo.base_commit_present {
        Err("base commit is missing from source repo: "@ + m.base.git_commit)
    } else if repo.dirty {
        Err("source has uncommitted changes; commit or stash them before exporting"@)
    } else {
        match repo.commits_on_top {
            None => Err("could not count commits on top of the base commit"@),
            Some(count) => if count == 0 {
                Err("fork has no commits on top of the base commit to export"@)
            } else {
                Ok(count)
            },
        }
    }
}

/// Checks that there is something to export, and that it will not overwrite anything.
pub fn check_export(output: &str, taken: bool, metadata: &Metadata, repo: &RepoState) -> (r: Result<
    u64,
    Error,
>)
    ensures
        text::outcome(r) == exportable(output@, taken, metadata.deep_view(), repo.deep_view()),
{
    if let Err(error) = check_output(output, taken) {
        return Err(error);
    }
    if !repo.base_commit_present {
        return Err(
            fail(
                cat2(
                    "base commit is missing from source repo: ",
                    metadata.base.git_commit.as_str(),
                ),
            ),
        );
    }
    if repo.dirty {
        return Err(
            fail(
                "source has uncommitted changes; commit or stash them before exporting".to_owned(),
            ),
        );
    }
    match repo.commits_on_top {
        None => Err(fail("could not count commits on top of the base commit".to_owned())),
        Some(count) => if count == 0 {
            Err(fail("fork has no commits on top of the base commit to export".to_owned()))
        } else {
            Ok(count)
        },
    }
}

/// What an artifact says of a fork and of the commits on top of its base.
pub open spec fn share_of(m: MetadataView, repo: RepoView, base_tree: Text, count: u64) -> ShareView {
    ShareView {
        format: 1,
        kind: "forkpkg-share"@,
        package: SharePackageView {
            installable: m.package.installable,
            flake_ref: m.package.flake_ref,
            attribute: m.package.attribute,
            system: m.package.system,
            name: m.package.name,
            pname: m.package.pname,
            version: m.package.version,
        },
        base: ShareBaseView {
            nixpkgs_revision: m.base.nixpkgs_revision,
            nixpkgs_last_modified: m.base.nixpkgs_last_modified,
            nixpkgs_locked_nar_hash: m.base.nixpkgs_locked_nar_hash,
            nixpkgs_resolved_url: m.base.nixpkgs_resolved_url,
            derivation: m.base.derivation,
            output: m.base.output,
            source: m.base.source,
            source_revision: m.base.source_revision,
            source_hash: m.base.source_hash,
            source_ca: m.base.source_ca,
            post_patch_source_hash: m.base.post_patch_source_hash,
            git_commit: m.base.git_commit,
            git_tree: base_tree,
        },
        changes: ShareChangesView {
            base_commit: m.base.git_commit,
            base_tree,
            head_commit: repo.head_commit,
            commit_count: count,
            bundle_path: BUNDLE_ENTRY@,
            patch_path: PATCH_ENTRY@,
        },
    }
}

fn new_share(metadata: &Metadata, repo: &RepoState, base_tree: &str, count: u64) -> (r: ShareArtifact)
    ensures
        r.deep_view() == share_of(metadata.deep_view(), repo.deep_view(), base_tree@, count),
{
    let package = &metadata.package;
    let base = &metadata.base;
    ShareArtifact {
        format: 1,
        kind: "forkpkg-share".to_owned(),
        package: SharePackage {
            installable: package.installable.clone(),
            flake_ref: package.flake_ref.clone(),
            attribute: package.attribute.clone(),
            system: package.system.clone(),
            name: package.name.copied(),
            pname: package.pname.copied(),
            version: package.version.copied(),
        },
        base: ShareBase {
            nixpkgs_revision: base.nixpkgs_revision.copied(),
            nixpkgs_last_modified: base.nixpkgs_last_modified,
            nixpkgs_locked_nar_hash: base.nixpkgs_locked_nar_hash.copied(),
            nixpkgs_resolved_url: base.nixpkgs_resolved_url.copied(),
            derivation: base.derivation.clone(),
            output: base.output.clone(),
            source: base.source.copied(),
            source_revision: base.source_revision.copied(),
            source_hash: base.source_hash.copied(),
            source_ca: base.source_ca.copied(),
            post_patch_source_hash: base.post_patch_source_hash.copied(),
            git_commit: base.git_commit.clone(),
            git_tree: base_tree.to_owned(),
        },
        changes: ShareChanges {
            base_commit: base.git_commit.clone(),
            base_tree: base_tree.to_owned(),
            head_commit: repo.head_commit.clone(),
            commit_count: count,
            bundle_path: BUNDLE_ENTRY.to_owned(),
            patch_path: PATCH_ENTRY.to_owned(),
        },
    }
}

/// What is exported, and how that is told.
#[derive(Debug)]
pub struct Export {
    pub share: ShareArtifact,
    pub summary: ExportSummary,
}

pub struct ExportView {
    pub share: ShareView,
    pub summary: ExportSummaryView,
}

impl DeepView for Export {
    type V = ExportView;

    open spec fn deep_view(&self) -> ExportView {
        ExportView { share: self.share.deep_view(), summary: self.summary.deep_view() }
    }
}

pub open spec fn export_of(
    output: Text,
    taken: bool,
    m: MetadataView,
    repo: RepoView,
    base_tree: Text,
) -> Result<ExportView, Text> {
    match exportable(output, taken, m, repo) {
        Err(problem) => Err(problem),
        Ok(count) => Ok(
            ExportView {
                share: share_of(m, repo, base_tree, count),
                summary: ExportSummaryView {
                    artifact: output,
                    base_commit: m.base.git_commit,
                    head_commit: repo.head_commit,
                    commit_count: count,
                },
            },
        ),
    }
}

/// Describes the commits of a fork for export. `taken` tells whether something stands at
/// the output's path, `base_tree` is the tree of the base commit.
pub fn export_changes(
    output: &str,
    taken: bool,
    metadata: &Metadata,
    repo: &RepoState,
    base_tree: &str,
) -> (r: Result<Export, Error>)
    ensures
        text::outcome(r) == export_of(
            output@,
            taken,
            metadata.deep_view(),
            repo.deep_view(),
            base_tree@,
        ),
{
    let count = match check_export(output, taken, metadata, repo) {
        Ok(count) => count,
        Err(error) => {
            return Err(error);
        },
    };
    Ok(
        Export {
            share: new_share(metadata, repo, base_tree, count),
            summary: ExportSummary {
                artifact: output.to_owned(),
                base_commit: metadata.base.git_commit.clone(),
                head_commit: repo.head_commit.clone(),
                commit_count: count,
            },
        },
    )
}

// ---- Comparing

/// How an optional field is shown.
pub open spec fn shown(value: Option<Text>) -> Text {
    match value {
        Some(value) => "Some("@ + text::debug_text(value) + ")"@,
        None => "None"@,
    }
}

fn show(value: &Option<String>) -> (r: String)
    ensures
        r@ == shown(value.deep_view()),
{
    match value {
        Some(value) => cat3("Some(", debug_of(value.as_str()).as_str(), ")"),
        None => "None".to_owned(),
    }
}

pub open spec fn field_mismatch(label: Text, left: Text, right: Text) -> Seq<Text> {
    text::only_if(
        left != right,
        label + ": artifact="@ + text::debug_text(left) + " target="@ + text::debug_text(right),
    )
}

fn compare_field(mismatches: &mut Vec<String>, label: &str, left: &str, right: &str)
    ensures
        final(mismatches).deep_view() == old(mismatches).deep_view() + field_mismatch(
            label@,
            left@,
            right@,
        ),
{
    let ghost before = mismatches.deep_view();
    if !same(left, right) {
        push_line(
            mismatches,
            cat5(
                label,
                ": artifact=",
                debug_of(left).as_str(),
                " target=",
                debug_of(right).as_str(),
            ),
        );
    }
    assert(mismatches.deep_view() =~= before + field_mismatch(label@, left@, right@));
}

pub open spec fn option_mismatch(label: Text, left: Option<Text>, right: Option<Text>) -> Seq<Text> {
    text::only_if(
        left != right,
        label + ": artifact="@ + shown(left) + " target="@ + shown(right),
    )
}

fn compare_option(
    mismatches: &mut Vec<String>,
    label: &str,
    left: &Option<String>,
    right: &Option<String>,
)
    ensures
        final(mismatches).deep_view() == old(mismatches).deep_view() + option_mismatch(
            label@,
            left.deep_view(),
            right.deep_view(),
        ),
{
    let ghost before = mismatches.deep_view();
    if !same_option(left, right) {
        push_line(
            mismatches,
            cat5(label, ": artifact=", show(left).as_str(), " target=", show(right).as_str()),
        );
    }
    assert(mismatches.deep_view() =~= before + option_mismatch(
        label@,
        left.deep_view(),
        right.deep_view(),
    ));
}

/// Where an artifact and a fork differ in what they were made from.
pub open spec fn mismatches_of(share: ShareView, m: MetadataView) -> Seq<Text> {
    field_mismatch("package.flake_ref"@, share.package.flake_ref, m.package.flake_ref)
        + field_mismatch("package.attribute"@, share.package.attribute, m.package.attribute)
        + field_mismatch("package.system"@, share.package.system, m.package.system)
        + field_mismatch("base.derivation"@, share.base.derivation, m.base.derivation)
        + field_mismatch("base.output"@, share.base.output, m.base.output) + option_mismatch(
        "base.nixpkgs_revision"@,
        share.base.nixpkgs_revision,
        m.base.nixpkgs_revision,
    ) + option_mismatch(
        "base.nixpkgs_locked_nar_hash"@,
        share.base.nixpkgs_locked_nar_hash,
        m.base.nixpkgs_locked_nar_hash,
    ) + option_mismatch(
        "base.nixpkgs_resolved_url"@,
        share.base.nixpkgs_resolved_url,
        m.base.nixpkgs_resolved_url,
    ) + option_mismatch("base.source"@, share.base.source, m.base.source) + option_mismatch(
        "base.source_revision"@,
        share.base.source_revision,
        m.base.source_revision,
    ) + option_mismatch("base.source_hash"@, share.base.source_hash, m.base.source_hash)
        + option_mismatch(
        "base.post_patch_source_hash"@,
        share.base.post_patch_source_hash,
        m.base.post_patch_source_hash,
    )
}

pub open spec fn indented(lines: Seq<Text>) -> Seq<Text> {
    lines.map_values(|line: Text| "  "@ + line)
}

/// Why an artifact does not fit a fork, if it does not.
pub open spec fn share_refusal(share: ShareView, m: MetadataView) -> Option<Text> {
    if share.format != 1 || share.kind != "forkpkg-share"@ {
        Some("unsupported forkpkg share artifact"@)
    } else if mismatches_of(share, m).len() > 0 {
        Some(
            "artifact does not match this fork:\n"@ + text::joined(
                indented(mismatches_of(share, m)),
                "\n"@,
            ),
        )
    } else {
        None
    }
}

fn indent(lines: &Vec<String>) -> (r: Vec<String>)
    ensures
        r.deep_view() == indented(lines.deep_view()),
{
    let ghost all = indented(lines.deep_view());
    let mut r: Vec<String> = Vec::new();
    let mut i: usize = 0;
    while i < lines.len()
        invariant
            i <= lines@.len(),
            all == indented(lines.deep_view()),
            all.len() == lines@.len(),
            r.deep_view() == all.take(i as int),
        decreases lines@.len() - i,
    {
        assert(all[i as int] == "  "@ + lines@[i as int]@);
        push_line(&mut r, cat2("  ", lines[i].as_str()));
        assert(all.take(i + 1) =~= all.take(i as int).push(all[i as int]));
        i += 1;
    }
    assert(all.take(all.len() as int) =~= all);
    r
}

/// Checks that an artifact was made from what a fork was made from.
pub fn validate_share_metadata(share: &ShareArtifact, metadata: &Metadata) -> (r: Result<(), Error>)
    ensures
        text::refusal(r) == share_refusal(share.deep_view(), metadata.deep_view()),
{
    if share.format != 1 || !same(share.kind.as_str(), "forkpkg-share") {
        return Err(fail("unsupported forkpkg share artifact".to_owned()));
    }
    let mut found: Vec<String> = Vec::new();
    let package = &metadata.package;
    let base = &metadata.base;
    assert(found.deep_view() =~= Seq::empty());
    compare_field(
        &mut found,
        "package.flake_ref",
        share.package.flake_ref.as_str(),
        package.flake_ref.as_str(),
    );
    compare_field(
        &mut found,
        "package.attribute",
        share.package.attribute.as_str(),
        package.attribute.as_str(),
    );
    compare_field(
        &mut found,
        "package.system",
        share.package.system.as_str(),
        package.system.as_str(),
    );
    compare_field(
        &mut found,
        "base.derivation",
        share.base.derivation.as_str(),
        base.derivation.as_str(),
    );
    compare_field(&mut found, "base.output", share.base.output.as_str(), base.output.as_str());
    compare_option(
        &mut found,
        "base.nixpkgs_revision",
        &share.base.nixpkgs_revision,
        &base.nixpkgs_revision,
    );
    compare_option(
        &mut found,
        "base.nixpkgs_locked_nar_hash",
        &share.base.nixpkgs_locked_nar_hash,
        &base.nixpkgs_locked_nar_hash,
    );
    compare_option(
        &mut found,
        "base.nixpkgs_resolved_url",
        &share.base.nixpkgs_resolved_url,
        &base.nixpkgs_resolved_url,
    );
    compare_option(&mut found, "base.source", &share.base.source, &base.source);
    compare_option(
        &mut found,
        "base.source_revision",
        &share.base.source_revision,
        &base.source_revision,
    );
    compare_option(&mut found, "base.source_hash", &share.base.source_hash, &base.source_hash);
    compare_option(
        &mut found,
        "base.post_patch_source_hash",
        &share.base.post_patch_source_hash,
        &base.post_patch_source_hash,
    );
    assert(found.deep_view() =~= mismatches_of(share.deep_view(), metadata.deep_view()));
    if found.len() > 0 {
        return Err(
            fail(
                cat2(
                    "artifact does not match this fork:\n",
                    join(&indent(&found), "\n").as_str(),
                ),
            ),
        );
    }
    Ok(())
}

/// An artifact fits a fork exactly where the two agree in everything that decides what
/// the fork was made from.
pub proof fn fitting_artifacts_agree(share: ShareView, m: MetadataView)
    ensures
        (share_refusal(share, m) is None) == ({
            &&& share.format == 1
            &&& share.kind == "forkpkg-share"@
            &&& share.package.flake_ref == m.package.flake_ref
            &&& share.package.attribute == m.package.attribute
            &&& share.package.system == m.package.system
            &&& share.base.derivation == m.base.derivation
            &&& share.base.output == m.base.output
            &&& share.base.nixpkgs_revision == m.base.nixpkgs_revision
            &&& share.base.nixpkgs_locked_nar_hash == m.base.nixpkgs_locked_nar_hash
            &&& share.base.nixpkgs_resolved_url == m.base.nixpkgs_resolved_url
            &&& share.base.source == m.base.source
            &&& share.base.source_revision == m.base.source_revision
            &&& share.base.source_hash == m.base.source_hash
            &&& share.base.post_patch_source_hash == m.base.post_patch_source_hash
        }),
{
}

/// What a fork exports fits that fork.
pub proof fn exports_fit_their_fork(m: MetadataView, repo: RepoView, base_tree: Text, count: u64)
    ensures
        share_refusal(share_of(m, repo, base_tree, count), m) is None,
{
    fitting_artifacts_agree(share_of(m, repo, base_tree, count), m);
}

// ---- Artifacts

/// What a member of an artifact is for.
#[derive(Debug, Clone, Copy, PartialEq, Eq, Structural)]
pub enum Slot {
    Metadata,
    Bundle,
    Patch,
}

impl Slot {
    pub open spec fn named(self) -> Text {
        match self {
            Slot::Metadata => SHARE_METADATA@,
            Slot::Bundle => BUNDLE_ENTRY@,
            Slot::Patch => PATCH_ENTRY@,
        }
    }

    pub fn name(self) -> (r: &'static str)
        ensures
            r@ == self.named(),
    {
        match self {
            Slot::Metadata => SHARE_METADATA,
            Slot::Bundle => BUNDLE_ENTRY,
            Slot::Patch => PATCH_ENTRY,
        }
    }
}

/// What a member is for, or why an artifact must not have it.
pub open spec fn slot_of(head: HeadView) -> Result<Slot, Text> {
    match head {
        HeadView::NotRead { cause } => Err("failed to read artifact entry: "@ + cause),
        HeadView::Head { is_file, path, .. } => if !is_file {
            Err("artifact contains a non-file entry"@)
        } else {
            match path {
                Err(cause) => Err("artifact entry path is invalid: "@ + cause),
                Ok(path) => if paths::same_path(path, SHARE_METADATA@) {
                    Ok(Slot::Metadata)
                } else if paths::same_path(path, BUNDLE_ENTRY@) {
                    Ok(Slot::Bundle)
                } else if paths::same_path(path, PATCH_ENTRY@) {
                    Ok(Slot::Patch)
                } else {
                    Err("artifact contains unexpected entry: "@ + path)
                },
            }
        },
    }
}

impl DeepView for Slot {
    type V = Slot;

    open spec fn deep_view(&self) -> Slot {
        *self
    }
}

/// Decides what a member of an artifact is for.
pub fn member_slot(head: &HeadRead) -> (r: Result<Slot, Error>)
    ensures
        text::outcome(r) == slot_of(head.deep_view()),
{
    match head {
        HeadRead::NotRead { cause } => Err(
            fail(cat2("failed to read artifact entry: ", cause.as_str())),
        ),
        HeadRead::Head { is_file, path, .. } => {
            if !*is_file {
                return Err(fail("artifact contains a non-file entry".to_owned()));
            }
            match path {
                MemberPath::Invalid { cause } => Err(
                    fail(cat2("artifact entry path is invalid: ", cause.as_str())),
                ),
                MemberPath::Path { path } => if paths_match(path.as_str(), SHARE_METADATA) {
                    Ok(Slot::Metadata)
                } else if paths_match(path.as_str(), BUNDLE_ENTRY) {
                    Ok(Slot::Bundle)
                } else if paths_match(path.as_str(), PATCH_ENTRY) {
                    Ok(Slot::Patch)
                } else {
                    Err(fail(cat2("artifact contains unexpected entry: ", path.as_str())))
                },
            }
        },
    }
}

/// Whether unpacking a member makes a directory: a name that ends in a slash does, under
/// any header but a ustar one.
pub open spec fn is_directory(head: HeadView) -> bool {
    match head {
        HeadView::NotRead { .. } => false,
        HeadView::Head { is_ustar, path, .. } => !is_ustar && (path matches Ok(path)
            && path.len() > 0 && path.last() == '/'),
    }
}

/// Tells whether unpacking a member makes a directory.
pub fn makes_directory(head: &HeadRead) -> (r: bool)
    ensures
        r == is_directory(head.deep_view()),
{
    match head {
        HeadRead::Head { is_ustar, path: MemberPath::Path { path }, .. } => {
            let chars = chars_of(path.as_str());
            !*is_ustar && chars.len() > 0 && chars[chars.len() - 1] == '/'
        },
        _ => false,
    }
}

/// The size that a header tells.
pub open spec fn size_in(head: HeadView) -> u64 {
    match head {
        HeadView::NotRead { .. } => 0,
        HeadView::Head { size, .. } => size,
    }
}

/// The contents of a member, which have to be as long as its header says.
pub open spec fn contents_in(slot: Slot, head: HeadView, read: Result<Seq<u8>, Text>) -> Result<
    Seq<u8>,
    Text,
> {
    match read {
        Err(cause) => Err("failed to extract "@ + slot.named() + ": "@ + cause),
        Ok(contents) => if contents.len() == size_in(head) {
            Ok(contents)
        } else {
            Err("failed to extract "@ + slot.named() + ": "@ + "failed to write entire file"@)
        },
    }
}

/// Checks the contents of a member against its header.
pub fn member_contents(slot: Slot, head: &HeadRead, read: Result<Vec<u8>, String>) -> (r: Result<
    Vec<u8>,
    Error,
>)
    ensures
        match r {
            Ok(contents) => contents_in(
                slot,
                head.deep_view(),
                match read {
                    Ok(bytes) => Ok(bytes@),
                    Err(cause) => Err(cause@),
                },
            ) == Ok::<Seq<u8>, Text>(contents@),
            Err(error) => contents_in(
                slot,
                head.deep_view(),
                match read {
                    Ok(bytes) => Ok(bytes@),
                    Err(cause) => Err(cause@),
                },
            ) == Err::<Seq<u8>, Text>(error@),
        },
{
    let size: u64 = match head {
        HeadRead::NotRead { .. } => 0,
        HeadRead::Head { size, .. } => *size,
    };
    match read {
        Err(cause) => Err(fail(cat4("failed to extract ", slot.name(), ": ", cause.as_str()))),
        Ok(contents) => if contents.len() as u64 == size {
            Ok(contents)
        } else {
            Err(
                fail(
                    cat4("failed to extract ", slot.name(), ": ", "failed to write entire file"),
                ),
            )
        },
    }
}

/// What was unpacked under one of an artifact's names.
pub enum PartView {
    Missing,
    File { contents: Seq<u8>, recorded: Recorded },
    Directory,
}

/// What has been found of an artifact.
pub struct PartsView {
    pub metadata: PartView,
    pub bundle: PartView,
    pub patch: PartView,
}

impl PartsView {
    pub open spec fn at(self, slot: Slot) -> PartView {
        match slot {
            Slot::Metadata => self.metadata,
            Slot::Bundle => self.bundle,
            Slot::Patch => self.patch,
        }
    }

    pub open spec fn with(self, slot: Slot, part: PartView) -> PartsView {
        match slot {
            Slot::Metadata => PartsView { metadata: part, ..self },
            Slot::Bundle => PartsView { bundle: part, ..self },
            Slot::Patch => PartsView { patch: part, ..self },
        }
    }
}

/// What unpacking a member under a name leaves there. A file replaces a file, and a
/// directory stays one; a file cannot take the place of a directory, nor a directory that
/// of a file.
pub open spec fn unpacked(
    slot: Slot,
    head: HeadView,
    read: Result<Seq<u8>, Text>,
    told: Result<Recorded, Text>,
    before: PartView,
) -> Result<PartView, Text> {
    if is_directory(head) {
        if before is File {
            Err("failed to extract "@ + slot.named() + ": "@ + "File exists (os error 17)"@)
        } else {
            Ok(PartView::Directory)
        }
    } else if before is Directory {
        Err("failed to extract "@ + slot.named() + ": "@ + "Is a directory (os error 21)"@)
    } else {
        match contents_in(slot, head, read) {
            Err(problem) => Err(problem),
            Ok(contents) => match told {
                Err(cause) => Err("failed to extract "@ + slot.named() + ": "@ + cause),
                Ok(recorded) => Ok(PartView::File { contents, recorded }),
            },
        }
    }
}

/// What reading the members of an archive gives.
pub struct MembersView {
    pub contents: spec_fn(int) -> Result<Seq<u8>, Text>,
    pub recorded: spec_fn(int) -> Result<Recorded, Text>,
}

pub open spec fn members_of(bytes: Seq<u8>) -> MembersView {
    MembersView {
        contents: |i: int| archive::archive_contents(bytes, i),
        recorded: |i: int| archive::archive_attributes(bytes, i),
    }
}

/// What the first `count` members hold; of several with one name the last counts.
pub open spec fn parts_in(heads: Seq<HeadView>, members: MembersView, count: nat) -> Result<
    PartsView,
    Text,
>
    decreases count,
{
    if count == 0 {
        Ok(
            PartsView {
                metadata: PartView::Missing,
                bundle: PartView::Missing,
                patch: PartView::Missing,
            },
        )
    } else {
        let i = count - 1;
        match parts_in(heads, members, i as nat) {
            Err(problem) => Err(problem),
            Ok(parts) => match slot_of(heads[i]) {
                Err(problem) => Err(problem),
                Ok(slot) => match unpacked(
                    slot,
                    heads[i],
                    (members.contents)(i),
                    (members.recorded)(i),
                    parts.at(slot),
                ) {
                    Err(problem) => Err(problem),
                    Ok(part) => Ok(parts.with(slot, part)),
                },
            },
        }
    }
}

/// An artifact taken apart.
#[derive(Debug)]
pub struct ExtractedArtifact {
    pub metadata: Vec<u8>,
    pub bundle: Vec<u8>,
    pub patch: Vec<u8>,
}

pub struct ExtractedView {
    pub metadata: Seq<u8>,
    pub bundle: Seq<u8>,
    pub patch: Seq<u8>,
}

impl DeepView for ExtractedArtifact {
    type V = ExtractedView;

    open spec fn deep_view(&self) -> ExtractedView {
        ExtractedView { metadata: self.metadata@, bundle: self.bundle@, patch: self.patch@ }
    }
}

/// What the headers of an artifact's parts record.
#[derive(Debug, Clone, Copy, PartialEq, Eq)]
pub struct ArtifactHeaders {
    pub metadata: Recorded,
    pub bundle: Recorded,
    pub patch: Recorded,
}

/// The parts of an artifact with what their headers record.
#[derive(Debug)]
pub struct UnpackedArtifact {
    pub parts: ExtractedArtifact,
    pub headers: ArtifactHeaders,
}

pub struct UnpackedView {
    pub parts: ExtractedView,
    pub headers: ArtifactHeaders,
}

impl DeepView for UnpackedArtifact {
    type V = UnpackedView;

    open spec fn deep_view(&self) -> UnpackedView {
        UnpackedView { parts: self.parts.deep_view(), headers: self.headers }
    }
}

/// The parts, where none is missing.
pub open spec fn complete(parts: PartsView) -> Result<UnpackedView, Text> {
    match (parts.metadata, parts.bundle, parts.patch) {
        (
            PartView::File { contents: metadata, recorded: first },
            PartView::File { contents: bundle, recorded: second },
            PartView::File { contents: patch, recorded: third },
        ) => Ok(
            UnpackedView {
                parts: ExtractedView { metadata, bundle, patch },
                headers: ArtifactHeaders { metadata: first, bundle: second, patch: third },
            },
        ),
        _ => Err("artifact is missing required metadata, bundle, or patch payload"@),
    }
}

/// What the members of an artifact hold, or the first reason to refuse it.
pub open spec fn extracted(heads: Result<Seq<HeadView>, Text>, members: MembersView) -> Result<
    UnpackedView,
    Text,
> {
    match heads {
        Err(cause) => Err("failed to read artifact entries: "@ + cause),
        Ok(heads) => match parts_in(heads, members, heads.len()) {
            Err(problem) => Err(problem),
            Ok(parts) => complete(parts),
        },
    }
}

/// What an artifact holds, with what its headers record. One with a sparse file whose map
/// goes on in further blocks is refused before its members are read.
pub open spec fn unpacked_in(bytes: Seq<u8>) -> Result<UnpackedView, Text> {
    if archive::meets_sparse_map(bytes) {
        Err("artifact contains a non-file entry"@)
    } else {
        extracted(archive::archive_heads(bytes), members_of(bytes))
    }
}

/// What an artifact holds.
pub open spec fn artifact_in(bytes: Seq<u8>) -> Result<ExtractedView, Text> {
    match unpacked_in(bytes) {
        Ok(artifact) => Ok(artifact.parts),
        Err(problem) => Err(problem),
    }
}

proof fn lemma_parts_stop(heads: Seq<HeadView>, members: MembersView, some: nat, all: nat)
    requires
        some <= all,
        parts_in(heads, members, some) is Err,
    ensures
        parts_in(heads, members, all) == parts_in(heads, members, some),
    decreases all,
{
    if some < all {
        lemma_parts_stop(heads, members, some, (all - 1) as nat);
    }
}

enum Part {
    Missing,
    File { contents: Vec<u8>, recorded: Recorded },
    Directory,
}

impl DeepView for Part {
    type V = PartView;

    closed spec fn deep_view(&self) -> PartView {
        match self {
            Part::Missing => PartView::Missing,
            Part::File { contents, recorded } => PartView::File {
                contents: contents@,
                recorded: *recorded,
            },
            Part::Directory => PartView::Directory,
        }
    }
}

fn not_extracted(slot: Slot, cause: &str) -> (r: Error)
    ensures
        r@ == "failed to extract "@ + slot.named() + ": "@ + cause@,
{
    fail(cat4("failed to extract ", slot.name(), ": ", cause))
}

/// Unpacks the member with a number.
fn unpack(bytes: &[u8], index: usize, head: &HeadRead, slot: Slot, before: &Part) -> (r: Result<
    Part,
    Error,
>)
    requires
        !archive::meets_sparse_map(bytes@),
        archive::archive_heads(bytes@) is Ok,
        index < archive::archive_heads(bytes@)->Ok_0.len(),
        archive::archive_heads(bytes@)->Ok_0[index as int] == head.deep_view(),
        slot_of(head.deep_view()) == Ok::<Slot, Text>(slot),
    ensures
        text::outcome(r) == unpacked(
            slot,
            head.deep_view(),
            archive::archive_contents(bytes@, index as int),
            archive::archive_attributes(bytes@, index as int),
            before.deep_view(),
        ),
{
    if makes_directory(head) {
        return match before {
            Part::File { .. } => Err(not_extracted(slot, "File exists (os error 17)")),
            _ => Ok(Part::Directory),
        };
    }
    if let Part::Directory = before {
        return Err(not_extracted(slot, "Is a directory (os error 21)"));
    }
    match member_contents(slot, head, read_member(bytes, index)) {
        Ok(contents) => match read_attributes(bytes, index) {
            Ok(recorded) => Ok(Part::File { contents, recorded }),
            Err(cause) => Err(not_extracted(slot, cause.as_str())),
        },
        Err(error) => Err(error),
    }
}

/// Takes an artifact apart.
pub fn read_artifact(bytes: &[u8]) -> (r: Result<ExtractedArtifact, Error>)
    ensures
        text::outcome(r) == artifact_in(bytes@),
{
    match unpack_artifact(bytes) {
        Ok(artifact) => Ok(artifact.parts),
        Err(error) => Err(error),
    }
}

/// Takes an artifact apart, and tells what its headers record.
pub fn unpack_artifact(bytes: &[u8]) -> (r: Result<UnpackedArtifact, Error>)
    ensures
        text::outcome(r) == unpacked_in(bytes@),
{
    let ghost members = members_of(bytes@);
    if finds_extended_map(bytes) {
        return Err(fail("artifact contains a non-file entry".to_owned()));
    }
    let heads = match read_heads(bytes) {
        Ok(heads) => heads,
        Err(cause) => {
            return Err(fail(cat2("failed to read artifact entries: ", cause.as_str())));
        },
    };
    let ghost all = heads.deep_view();
    let mut metadata = Part::Missing;
    let mut bundle = Part::Missing;
    let mut patch = Part::Missing;
    let mut i: usize = 0;
    while i < heads.len()
        invariant
            i <= heads@.len(),
            all == heads.deep_view(),
            all.len() == heads@.len(),
            !archive::meets_sparse_map(bytes@),
            archive::archive_heads(bytes@) == Ok::<Seq<HeadView>, Text>(all),
            members == members_of(bytes@),
            parts_in(all, members, i as nat) == Ok::<PartsView, Text>(
                PartsView {
                    metadata: metadata.deep_view(),
                    bundle: bundle.deep_view(),
                    patch: patch.deep_view(),
                },
            ),
        decreases heads@.len() - i,
    {
        assert(all[i as int] == heads@[i as int].deep_view());
        let slot = match member_slot(&heads[i]) {
            Ok(slot) => slot,
            Err(error) => {
                proof {
                    lemma_parts_stop(all, members, (i + 1) as nat, all.len());
                }
                return Err(error);
            },
        };
        let before = match slot {
            Slot::Metadata => &metadata,
            Slot::Bundle => &bundle,
            Slot::Patch => &patch,
        };
        let part = match unpack(bytes, i, &heads[i], slot, before) {
            Ok(part) => part,
            Err(error) => {
                proof {
                    lemma_parts_stop(all, members, (i + 1) as nat, all.len());
                }
                return Err(error);
            },
        };
        match slot {
            Slot::Metadata => {
                metadata = part;
            },
            Slot::Bundle => {
                bundle = part;
            },
            Slot::Patch => {
                patch = part;
            },
        }
        i += 1;
    }
    match (metadata, bundle, patch) {
        (
            Part::File { contents: metadata, recorded: first },
            Part::File { contents: bundle, recorded: second },
            Part::File { contents: patch, recorded: third },
        ) => Ok(
            UnpackedArtifact {
                parts: ExtractedArtifact { metadata, bundle, patch },
                headers: ArtifactHeaders { metadata: first, bundle: second, patch: third },
            },
        ),
        _ => Err(
            fail("artifact is missing required metadata, bundle, or patch payload".to_owned()),
        ),
    }
}

/// A file to put into an artifact.
#[derive(Debug)]
pub struct Payload {
    pub attributes: Attributes,
    pub contents: Vec<u8>,
}

pub(crate) proof fn lemma_entry_names()
    ensures
        archive::is_member_name(SHARE_METADATA@),
        archive::is_member_name(BUNDLE_ENTRY@),
        archive::is_member_name(PATCH_ENTRY@),
        !paths::same_path(BUNDLE_ENTRY@, SHARE_METADATA@),
        !paths::same_path(PATCH_ENTRY@, SHARE_METADATA@),
        !paths::same_path(PATCH_ENTRY@, BUNDLE_ENTRY@),
        SHARE_METADATA@.last() != '/',
        BUNDLE_ENTRY@.last() != '/',
        PATCH_ENTRY@.last() != '/',
{
    reveal_strlit("forkpkg-share.toml");
    reveal_strlit("commits.bundle");
    reveal_strlit("commits.patch");
    let metadata = SHARE_METADATA@;
    let bundle = BUNDLE_ENTRY@;
    let patch = PATCH_ENTRY@;
    assert(metadata.len() == 18 && bundle.len() == 14 && patch.len() == 13);
    assert(seq!['.'].len() == 1);
    assert(forall|i: int| 0 <= i < 13 ==> #[trigger] patch[i] != '/');
    paths::lemma_name_components(metadata);
    paths::lemma_name_components(bundle);
    paths::lemma_name_components(patch);
    assert(seq![metadata][0].len() == 18);
    assert(seq![bundle][0].len() == 14);
    assert(seq![patch][0].len() == 13);
}

proof fn lemma_written_parts(
    parts: ExtractedView,
    headers: ArtifactHeaders,
    recorded: Seq<Recorded>,
    members: MembersView,
)
    requires
        parts.metadata.len() <= u64::MAX,
        parts.bundle.len() <= u64::MAX,
        parts.patch.len() <= u64::MAX,
        (members.contents)(0) == Ok::<Seq<u8>, Text>(parts.metadata),
        (members.contents)(1) == Ok::<Seq<u8>, Text>(parts.bundle),
        (members.contents)(2) == Ok::<Seq<u8>, Text>(parts.patch),
        (members.recorded)(0) == Ok::<Recorded, Text>(headers.metadata),
        (members.recorded)(1) == Ok::<Recorded, Text>(headers.bundle),
        (members.recorded)(2) == Ok::<Recorded, Text>(headers.patch),
    ensures
        extracted(
            Ok(
                archive::heads_of(
                    seq![
                        (SHARE_METADATA@, recorded[0], parts.metadata),
                        (BUNDLE_ENTRY@, recorded[1], parts.bundle),
                        (PATCH_ENTRY@, recorded[2], parts.patch),
                    ],
                ),
            ),
            members,
        ) == Ok::<UnpackedView, Text>(UnpackedView { parts, headers }),
{
    lemma_entry_names();
    let heads = archive::heads_of(
        seq![
            (SHARE_METADATA@, recorded[0], parts.metadata),
            (BUNDLE_ENTRY@, recorded[1], parts.bundle),
            (PATCH_ENTRY@, recorded[2], parts.patch),
        ],
    );
    assert(slot_of(heads[0]) == Ok::<Slot, Text>(Slot::Metadata));
    assert(slot_of(heads[1]) == Ok::<Slot, Text>(Slot::Bundle));
    assert(slot_of(heads[2]) == Ok::<Slot, Text>(Slot::Patch));
    assert(parts_in(heads, members, 0) is Ok);
    assert(parts_in(heads, members, 1) is Ok);
    assert(parts_in(heads, members, 2) is Ok);
    assert(parts_in(heads, members, 3) is Ok);
}

/// Puts an artifact together from its metadata, its bundle and its patch. Reading the
/// artifact gives them back, whatever they hold, and the headers tell the attributes of the
/// files where a header has room for them.
pub fn write_artifact(metadata: &Vec<u8>, bundle: &Payload, patch: &Payload) -> (r: Result<
    Vec<u8>,
    Error,
>)
    ensures
        r is Ok,
        artifact_in(r->Ok_0@) == Ok::<ExtractedView, Text>(
            ExtractedView {
                metadata: metadata@,
                bundle: bundle.contents@,
                patch: patch.contents@,
            },
        ),
        unpacked_in(r->Ok_0@) is Ok,
        unpacked_in(r->Ok_0@)->Ok_0.headers.metadata == archive::ownerless(0o644),
        archive::records(
            unpacked_in(r->Ok_0@)->Ok_0.headers.bundle,
            bundle.attributes.recorded(),
        ),
        archive::records(
            unpacked_in(r->Ok_0@)->Ok_0.headers.patch,
            patch.attributes.recorded(),
        ),
{
    proof {
        lemma_entry_names();
    }
    let mut archive = new_builder();
    let described = append_ownerless(&mut archive, SHARE_METADATA, 0o644, metadata.as_slice());
    if let Err(cause) = described {
        return Err(fail(cat2("failed to write artifact metadata: ", cause.as_str())));
    }
    let bundled = append_member(
        &mut archive,
        BUNDLE_ENTRY,
        bundle.attributes,
        bundle.contents.as_slice(),
    );
    if let Err(cause) = bundled {
        return Err(fail(cat2("failed to write Git bundle to artifact: ", cause.as_str())));
    }
    let patched = append_member(
        &mut archive,
        PATCH_ENTRY,
        patch.attributes,
        patch.contents.as_slice(),
    );
    if let Err(cause) = patched {
        return Err(fail(cat2("failed to write Git patch stream to artifact: ", cause.as_str())));
    }
    let ghost members = archive::builder_members(archive);
    let ghost recorded = seq![
        archive::ownerless(0o644),
        bundle.attributes.recorded(),
        patch.attributes.recorded(),
    ];
    assert(members =~= seq![
        (SHARE_METADATA@, recorded[0], metadata@),
        (BUNDLE_ENTRY@, recorded[1], bundle.contents@),
        (PATCH_ENTRY@, recorded[2], patch.contents@),
    ]);
    match finish_builder(archive) {
        Ok(bytes) => {
            proof {
                let parts = ExtractedView {
                    metadata: metadata@,
                    bundle: bundle.contents@,
                    patch: patch.contents@,
                };
                let headers = ArtifactHeaders {
                    metadata: archive::archive_attributes(bytes@, 0)->Ok_0,
                    bundle: archive::archive_attributes(bytes@, 1)->Ok_0,
                    patch: archive::archive_attributes(bytes@, 2)->Ok_0,
                };
                assert(metadata.len() == metadata@.len());
                assert(bundle.contents.len() == bundle.contents@.len());
                assert(patch.contents.len() == patch.contents@.len());
                assert(archive::archive_contents(bytes@, 0) == Ok::<Seq<u8>, Text>(members[0].2));
                assert(archive::archive_contents(bytes@, 1) == Ok::<Seq<u8>, Text>(members[1].2));
                assert(archive::archive_contents(bytes@, 2) == Ok::<Seq<u8>, Text>(members[2].2));
                assert(recorded[0].fit());
                assert(!archive::meets_sparse_map(bytes@));
                lemma_written_parts(parts, headers, recorded, members_of(bytes@));
            }
            Ok(bytes)
        },
        Err(cause) => Err(fail(cat2("failed to finish artifact: ", cause.as_str()))),
    }
}

// ---- Importing

/// The width of a character in UTF-8.
pub open spec fn width(c: char) -> int {
    if (c as u32) < 0x80 {
        1
    } else if (c as u32) < 0x800 {
        2
    } else if (c as u32) < 0x10000 {
        3
    } else {
        4
    }
}

/// How many characters take up exactly `bytes` bytes, if some number does.
pub open spec fn chars_within(s: Text, bytes: int) -> Option<nat>
    decreases s.len(),
{
    if bytes == 0 {
        Some(0)
    } else if bytes < 0 || s.len() == 0 {
        None
    } else {
        match chars_within(s.drop_first(), bytes - width(s[0])) {
            Some(n) => Some(n + 1),
            None => None,
        }
    }
}

/// The first twelve bytes of a hash; all of it where that is no whole text.
pub open spec fn short(hash: Text) -> Text {
    match chars_within(hash, 12) {
        Some(n) => hash.take(n as int),
        None => hash,
    }
}

pub fn short_hash(hash: &str) -> (r: String)
    ensures
        r@ == short(hash@),
{
    let chars = chars_of(hash);
    let mut left: i32 = 12;
    let mut i: usize = 0;
    assert(hash@.skip(0) =~= hash@);
    while i < chars.len() && left > 0
        invariant
            i <= chars@.len(),
            chars@ == hash@,
            -4 < left <= 12,
            chars_within(hash@, 12) == (match chars_within(hash@.skip(i as int), left as int) {
                Some(n) => Some(n + i as nat),
                None => None::<nat>,
            }),
        decreases chars@.len() - i,
    {
        let c = chars[i];
        let taken: i32 = if (c as u32) < 0x80 {
            1
        } else if (c as u32) < 0x800 {
            2
        } else if (c as u32) < 0x10000 {
            3
        } else {
            4
        };
        assert(hash@.skip(i as int)[0] == c);
        assert(hash@.skip(i as int).drop_first() =~= hash@.skip(i + 1));
        left = left - taken;
        i += 1;
    }
    if left == 0 {
        assert(chars@.subrange(0, i as int) =~= hash@.take(i as int));
        slice_of(&chars, 0, i)
    } else {
        hash.to_owned()
    }
}

/// The ref that imported commits are fetched to.
pub open spec fn import_ref_of(share: ShareView) -> Text {
    "refs/forkpkg/imports/"@ + short(share.changes.head_commit)
}

/// Why a fork cannot take in commits now, if it cannot.
pub open spec fn target_refusal(m: MetadataView, repo: RepoView) -> Option<Text> {
    if !repo.base_commit_present {
        Some("target fork is missing its recorded base commit: "@ + m.base.git_commit)
    } else if repo.dirty {
        Some("target source has uncommitted changes; commit or stash them before importing"@)
    } else {
        None
    }
}

/// Checks that a fork can take in commits.
pub fn check_target(metadata: &Metadata, repo: &RepoState) -> (r: Result<(), Error>)
    ensures
        text::refusal(r) == target_refusal(metadata.deep_view(), repo.deep_view()),
{
    if !repo.base_commit_present {
        return Err(
            fail(
                cat2(
                    "target fork is missing its recorded base commit: ",
                    metadata.base.git_commit.as_str(),
                ),
            ),
        );
    }
    if repo.dirty {
        return Err(
            fail(
                "target source has uncommitted changes; commit or stash them before importing".to_owned(),
            ),
        );
    }
    Ok(())
}

/// Why an artifact's commits cannot be imported, if they cannot.
pub open spec fn import_refusal(
    share: ShareView,
    m: MetadataView,
    repo: RepoView,
    base_tree: Text,
) -> Option<Text> {
    match share_refusal(share, m) {
        Some(problem) => Some(problem),
        None => match target_refusal(m, repo) {
            Some(problem) => Some(problem),
            None => if base_tree == share.changes.base_tree {
                None
            } else {
                Some(
                    "base tree mismatch; artifact expects "@ + share.changes.base_tree
                        + ", target fork has "@ + base_tree,
                )
            },
        },
    }
}

/// One thing that importing does in the repository.
#[derive(Debug, Clone)]
pub enum ImportTask {
    VerifyBundle,
    FetchBundle { target_ref: String },
    IsAncestor { ancestor: String, descendant: String },
    FastForward { target_ref: String },
    CherryPick { base: String, target_ref: String },
    ApplyMailbox,
}

/// What importing does next.
#[derive(Debug, Clone)]
pub enum ImportStep {
    Perform { task: ImportTask },
    Imported { method: &'static str },
}

pub enum TaskView {
    VerifyBundle,
    FetchBundle { target_ref: Text },
    IsAncestor { ancestor: Text, descendant: Text },
    FastForward { target_ref: Text },
    CherryPick { base: Text, target_ref: Text },
    ApplyMailbox,
}

pub enum ImportStepView {
    Perform { task: TaskView },
    Imported { method: Text },
}

impl DeepView for ImportTask {
    type V = TaskView;

    open spec fn deep_view(&self) -> TaskView {
        match self {
            ImportTask::VerifyBundle => TaskView::VerifyBundle,
            ImportTask::FetchBundle { target_ref } => TaskView::FetchBundle {
                target_ref: target_ref@,
            },
            ImportTask::IsAncestor { ancestor, descendant } => TaskView::IsAncestor {
                ancestor: ancestor@,
                descendant: descendant@,
            },
            ImportTask::FastForward { target_ref } => TaskView::FastForward {
                target_ref: target_ref@,
            },
            ImportTask::CherryPick { base, target_ref } => TaskView::CherryPick {
                base: base@,
                target_ref: target_ref@,
            },
            ImportTask::ApplyMailbox => TaskView::ApplyMailbox,
        }
    }
}

impl DeepView for ImportStep {
    type V = ImportStepView;

    open spec fn deep_view(&self) -> ImportStepView {
        match self {
            ImportStep::Perform { task } => ImportStepView::Perform { task: task.deep_view() },
            ImportStep::Imported { method } => ImportStepView::Imported { method: method@ },
        }
    }
}

/// What importing from the bundle does after the answers so far: whether each task held.
pub open spec fn bundle_step(share: ShareView, answers: Seq<bool>) -> ImportStepView {
    let target_ref = import_ref_of(share);
    if answers.len() == 0 {
        ImportStepView::Perform { task: TaskView::VerifyBundle }
    } else if answers.len() == 1 {
        ImportStepView::Perform { task: TaskView::FetchBundle { target_ref } }
    } else if answers.len() == 2 {
        ImportStepView::Perform {
            task: TaskView::IsAncestor { ancestor: target_ref, descendant: "HEAD"@ },
        }
    } else if answers[2] {
        ImportStepView::Imported { method: "already-present"@ }
    } else if answers.len() == 3 {
        ImportStepView::Perform {
            task: TaskView::IsAncestor { ancestor: "HEAD"@, descendant: target_ref },
        }
    } else if answers.len() == 4 {
        ImportStepView::Perform {
            task: if answers[3] {
                TaskView::FastForward { target_ref }
            } else {
                TaskView::CherryPick { base: share.changes.base_commit, target_ref }
            },
        }
    } else if answers[3] {
        ImportStepView::Imported { method: "fast-forward"@ }
    } else {
        ImportStepView::Imported { method: "cherry-pick"@ }
    }
}

fn import_from_bundle(share: &ShareArtifact, answers: &Vec<bool>) -> (r: ImportStep)
    ensures
        r.deep_view() == bundle_step(share.deep_view(), answers@),
{
    let target_ref = cat2(
        "refs/forkpkg/imports/",
        short_hash(share.changes.head_commit.as_str()).as_str(),
    );
    let count = answers.len();
    if count == 0 {
        ImportStep::Perform { task: ImportTask::VerifyBundle }
    } else if count == 1 {
        ImportStep::Perform { task: ImportTask::FetchBundle { target_ref } }
    } else if count == 2 {
        ImportStep::Perform {
            task: ImportTask::IsAncestor { ancestor: target_ref, descendant: "HEAD".to_owned() },
        }
    } else if answers[2] {
        ImportStep::Imported { method: "already-present" }
    } else if count == 3 {
        ImportStep::Perform {
            task: ImportTask::IsAncestor { ancestor: "HEAD".to_owned(), descendant: target_ref },
        }
    } else if count == 4 {
        if answers[3] {
            ImportStep::Perform { task: ImportTask::FastForward { target_ref } }
        } else {
            ImportStep::Perform {
                task: ImportTask::CherryPick {
                    base: share.changes.base_commit.clone(),
                    target_ref,
                },
            }
        }
    } else if answers[3] {
        ImportStep::Imported { method: "fast-forward" }
    } else {
        ImportStep::Imported { method: "cherry-pick" }
    }
}

/// What importing does next, or why it must not begin: a fork with the artifact's very
/// base commit takes the bundle, any other the patches.
pub open spec fn import_next(
    share: ShareView,
    m: MetadataView,
    repo: RepoView,
    base_tree: Text,
    answers: Seq<bool>,
) -> Result<ImportStepView, Text> {
    match import_refusal(share, m, repo, base_tree) {
        Some(problem) => Err(problem),
        None => if m.base.git_commit == share.changes.base_commit {
            Ok(bundle_step(share, answers))
        } else if answers.len() == 0 {
            Ok(ImportStepView::Perform { task: TaskView::ApplyMailbox })
        } else {
            Ok(ImportStepView::Imported { method: "git-am"@ })
        },
    }
}

/// Imports the commits of an artifact into a fork: says what to do next after the answers
/// so far. `repo` and `base_tree` tell of the fork before the import.
pub fn import_changes(
    share: &ShareArtifact,
    metadata: &Metadata,
    repo: &RepoState,
    base_tree: &str,
    answers: &Vec<bool>,
) -> (r: Result<ImportStep, Error>)
    ensures
        text::outcome(r) == import_next(
            share.deep_view(),
            metadata.deep_view(),
            repo.deep_view(),
            base_tree@,
            answers@,
        ),
{
    if let Err(error) = validate_share_metadata(share, metadata) {
        return Err(error);
    }
    if let Err(error) = check_target(metadata, repo) {
        return Err(error);
    }
    if !same(base_tree, share.changes.base_tree.as_str()) {
        return Err(
            fail(
                cat4(
                    "base tree mismatch; artifact expects ",
                    share.changes.base_tree.as_str(),
                    ", target fork has ",
                    base_tree,
                ),
            ),
        );
    }
    if same(metadata.base.git_commit.as_str(), share.changes.base_commit.as_str()) {
        Ok(import_from_bundle(share, answers))
    } else if answers.len() == 0 {
        Ok(ImportStep::Perform { task: ImportTask::ApplyMailbox })
    } else {
        Ok(ImportStep::Imported { method: "git-am" })
    }
}

/// What is told of an import.
pub open spec fn import_summary_of(
    artifact: Text,
    method: Text,
    m: MetadataView,
    head_commit: Text,
    share: ShareView,
) -> ImportSummaryView {
    ImportSummaryView {
        artifact,
        method,
        base_commit: m.base.git_commit,
        head_commit,
        commit_count: share.changes.commit_count,
    }
}

/// How an import is told.
pub fn import_summary(
    artifact: &str,
    method: &'static str,
    metadata: &Metadata,
    head_commit: &str,
    share: &ShareArtifact,
) -> (r: ImportSummary)
    ensures
        r.deep_view() == import_summary_of(
            artifact@,
            method@,
            metadata.deep_view(),
            head_commit@,
            share.deep_view(),
        ),
{
    ImportSummary {
        artifact: artifact.to_owned(),
        method,
        base_commit: metadata.base.git_commit.clone(),
        head_commit: head_commit.to_owned(),
        commit_count: share.changes.commit_count,
    }
}

} // verus!
