//! Making a new fork: its name and label, whether it may be made, what is recorded of it.
use vstd::prelude::*;

use crate::copying::Copied;
use crate::metadata::{
    BaseMetadata, BaseView, BuildMetadata, BuildView, ForkMetadata, ForkView, Metadata,
    MetadataView, PackageMetadata, PackageView,
};
use crate::nix::{self, ResolvedPackage, ResolvedView, StorePathInfo, StorePathView};
use crate::text::{self, cat2, cat3, cat4, cat5, fail, push_line, same, Error, Text};
use crate::workspace::{
    self, create_managed, labeled_workspace, sanitize_workspace_name, Environment,
    EnvironmentView, Workspace, WorkspaceView, DEFAULT_LABEL,
};

verus! {

// ---- Names

/// The name of the workspaces for a package: from its pname, else the end of its
/// attribute path, else its name.
pub open spec fn workspace_name_of(package: ResolvedView) -> Text {
    workspace::sanitized(
        match package.package_pname {
            Some(pname) => pname,
            None => if package.installable.attr_path.len() > 0 {
                package.installable.attr_path.last()
            } else {
                match package.package_name {
                    Some(name) => name,
                    None => "package"@,
                }
            },
        },
    )
}

pub fn workspace_name(resolved: &ResolvedPackage) -> (r: String)
    ensures
        r@ == workspace_name_of(resolved.deep_view()),
{
    let path = &resolved.installable.attr_path;
    match &resolved.package_pname {
        Some(pname) => sanitize_workspace_name(pname.as_str()),
        None => {
            if path.len() > 0 {
                assert(path.deep_view().last() == path@[path@.len() - 1]@);
                sanitize_workspace_name(path[path.len() - 1].as_str())
            } else {
                match &resolved.package_name {
                    Some(name) => sanitize_workspace_name(name.as_str()),
                    None => sanitize_workspace_name("package"),
                }
            }
        },
    }
}

/// What a fork starts from: the package at its revision, where that is known.
pub open spec fn description_of(package: ResolvedView) -> Text {
    match package.flake.revision {
        Some(revision) => package.installable.flake_ref + "@"@ + revision + "#"@
            + package.installable.attribute,
        None => package.installable.original,
    }
}

pub fn base_description(resolved: &ResolvedPackage) -> (r: String)
    ensures
        r@ == description_of(resolved.deep_view()),
{
    match &resolved.flake.revision {
        Some(revision) => cat5(
            resolved.installable.flake_ref.as_str(),
            "@",
            revision.as_str(),
            "#",
            resolved.installable.attribute.as_str(),
        ),
        None => resolved.installable.original.clone(),
    }
}

/// How a fork is named on the command line.
pub open spec fn reference_of(package: Text, label: Text) -> Text {
    if workspace::sanitized(label) == DEFAULT_LABEL@ {
        workspace::sanitized(package)
    } else {
        workspace::sanitized(package) + " --label "@ + workspace::sanitized(label)
    }
}

pub fn fork_reference(package: &str, label: &str) -> (r: String)
    ensures
        r@ == reference_of(package@, label@),
{
    let package = sanitize_workspace_name(package);
    let label = sanitize_workspace_name(label);
    if same(label.as_str(), DEFAULT_LABEL) {
        package
    } else {
        cat3(package.as_str(), " --label ", label.as_str())
    }
}

proof fn lemma_no_space(name: Text)
    ensures
        !workspace::sanitized(name).contains(' '),
{
    workspace::sanitized_names_are_plain(name);
    let s = workspace::sanitized(name);
    assert forall|i: int| 0 <= i < s.len() implies #[trigger] s[i] != ' ' by {
        assert(workspace::name_char(s[i]) == s[i]);
    }
}

/// Forks that are named alike on the command line have the same name and label.
pub proof fn references_tell_forks_apart(
    package: Text,
    label: Text,
    other_package: Text,
    other_label: Text,
)
    requires
        reference_of(package, label) == reference_of(other_package, other_label),
    ensures
        workspace::sanitized(package) == workspace::sanitized(other_package),
        workspace::sanitized(label) == workspace::sanitized(other_label),
{
    let p = workspace::sanitized(package);
    let q = workspace::sanitized(other_package);
    let l = workspace::sanitized(label);
    let m = workspace::sanitized(other_label);
    let r = reference_of(package, label);
    let s = reference_of(other_package, other_label);
    lemma_no_space(package);
    lemma_no_space(other_package);
    reveal_strlit(" --label ");
    let mid = " --label "@;
    if l != DEFAULT_LABEL@ {
        assert(r[p.len() as int] == ' ');
        assert(r.contains(' '));
    }
    if m != DEFAULT_LABEL@ {
        assert(s[q.len() as int] == ' ');
        assert(s.contains(' '));
    }
    if l != DEFAULT_LABEL@ && m != DEFAULT_LABEL@ {
        if p.len() < q.len() {
            assert(s[p.len() as int] == q[p.len() as int]);
        }
        if q.len() < p.len() {
            assert(r[q.len() as int] == p[q.len() as int]);
        }
        assert(p =~= r.take(p.len() as int));
        assert(q =~= s.take(q.len() as int));
        assert(l =~= r.skip((p.len() + mid.len()) as int));
        assert(m =~= s.skip((q.len() + mid.len()) as int));
    }
}

// ---- Whether the fork may be made

/// The label of a new fork: the requested one, or the default for a package's first.
pub open spec fn label_for(requested: Option<Text>, package: Text, existing_count: nat) -> Result<
    Text,
    Text,
> {
    match requested {
        Some(label) => Ok(workspace::sanitized(label)),
        None => if existing_count == 0 {
            Ok(DEFAULT_LABEL@)
        } else {
            Err(
                "fork already exists for "@ + package
                    + "; use --label <label> to create another fork"@,
            )
        },
    }
}

pub fn fork_label_or_default(
    requested_label: &Option<String>,
    package: &str,
    existing_count: usize,
) -> (r: Result<String, Error>)
    ensures
        text::outcome(r) == label_for(
            requested_label.deep_view(),
            package@,
            existing_count as nat,
        ),
{
    match requested_label {
        Some(label) => Ok(sanitize_workspace_name(label.as_str())),
        None => {
            if existing_count == 0 {
                Ok(DEFAULT_LABEL.to_owned())
            } else {
                Err(
                    fail(
                        cat3(
                            "fork already exists for ",
                            package,
                            "; use --label <label> to create another fork",
                        ),
                    ),
                )
            }
        },
    }
}

/// The workspace of a package from before forks had labels.
#[derive(Debug, Clone)]
pub enum Legacy {
    Absent,
    Unreadable { problem: String },
    Inactive,
    Active,
}

pub enum LegacyView {
    Absent,
    Unreadable { problem: Text },
    Inactive,
    Active,
}

impl DeepView for Legacy {
    type V = LegacyView;

    open spec fn deep_view(&self) -> LegacyView {
        match self {
            Legacy::Absent => LegacyView::Absent,
            Legacy::Unreadable { problem } => LegacyView::Unreadable { problem: problem@ },
            Legacy::Inactive => LegacyView::Inactive,
            Legacy::Active => LegacyView::Active,
        }
    }
}

/// A fork to be made. Where `migrate` is set, the package's workspace from before labels
/// becomes the default one first.
#[derive(Debug, Clone)]
pub struct ForkPlan {
    pub name: String,
    pub label: String,
    pub migrate: bool,
}

pub struct ForkPlanView {
    pub name: Text,
    pub label: Text,
    pub migrate: bool,
}

impl DeepView for ForkPlan {
    type V = ForkPlanView;

    open spec fn deep_view(&self) -> ForkPlanView {
        ForkPlanView { name: self.name@, label: self.label@, migrate: self.migrate }
    }
}

/// Which fork to make. Asking for a label other than the default moves a workspace from
/// before labels out of the way, unless it is active.
pub open spec fn fork_plan(
    requested: Option<Text>,
    name: Text,
    existing_count: nat,
    legacy: LegacyView,
) -> Result<ForkPlanView, Text> {
    match label_for(requested, name, existing_count) {
        Err(problem) => Err(problem),
        Ok(label) => if requested is Some && label != DEFAULT_LABEL@ {
            match legacy {
                LegacyView::Absent => Ok(ForkPlanView { name, label, migrate: false }),
                LegacyView::Inactive => Ok(ForkPlanView { name, label, migrate: true }),
                LegacyView::Unreadable { problem } => Err(problem),
                LegacyView::Active => Err(
                    "legacy fork "@ + name + "/"@ + DEFAULT_LABEL@
                        + " is active; disable it before creating another label"@,
                ),
            }
        } else if legacy is Absent {
            Ok(ForkPlanView { name, label, migrate: false })
        } else {
            Err("fork workspace already exists: "@ + name + "/"@ + label)
        },
    }
}

pub fn plan_fork(
    requested_label: &Option<String>,
    name: &str,
    existing_count: usize,
    legacy: &Legacy,
) -> (r: Result<ForkPlan, Error>)
    ensures
        text::outcome(r) == fork_plan(
            requested_label.deep_view(),
            name@,
            existing_count as nat,
            legacy.deep_view(),
        ),
{
    let label = match fork_label_or_default(requested_label, name, existing_count) {
        Ok(label) => label,
        Err(error) => {
            return Err(error);
        },
    };
    let mut migrate = false;
    if requested_label.is_some() && !same(label.as_str(), DEFAULT_LABEL) {
        match legacy {
            Legacy::Absent => {},
            Legacy::Inactive => {
                migrate = true;
            },
            Legacy::Unreadable { problem } => {
                return Err(fail(problem.clone()));
            },
            Legacy::Active => {
                return Err(
                    fail(
                        cat5(
                            "legacy fork ",
                            name,
                            "/",
                            DEFAULT_LABEL,
                            " is active; disable it before creating another label",
                        ),
                    ),
                );
            },
        }
    } else {
        match legacy {
            Legacy::Absent => {},
            _ => {
                return Err(
                    fail(cat4("fork workspace already exists: ", name, "/", label.as_str())),
                );
            },
        }
    }
    Ok(ForkPlan { name: name.to_owned(), label, migrate })
}

/// Where a planned fork goes, unless something stands there.
pub open spec fn placed(env: EnvironmentView, plan: ForkPlanView, taken: bool) -> Result<
    WorkspaceView,
    Text,
> {
    workspace::creatable(workspace::labeled_workspace_of(env, plan.name, plan.label), taken)
}

/// Decides where a planned fork goes.
pub fn place_fork(env: &Environment, plan: &ForkPlan, taken: bool) -> (r: Result<Workspace, Error>)
    ensures
        text::outcome(r) == placed(env.deep_view(), plan.deep_view(), taken),
{
    let root = labeled_workspace(env, plan.name.as_str(), plan.label.as_str());
    create_managed(root.as_str(), taken)
}

/// A fork is only made beside a workspace from before labels where that is moved first, and
/// then never under the default label, which that workspace gets.
pub proof fn legacy_workspaces_are_kept(
    requested: Option<Text>,
    name: Text,
    existing_count: nat,
    legacy: LegacyView,
)
    ensures
        fork_plan(requested, name, existing_count, legacy) matches Ok(plan) ==> {
            &&& plan.name == name
            &&& plan.migrate == !(legacy is Absent)
            &&& plan.migrate ==> plan.label != DEFAULT_LABEL@
        },
{
}

// ---- What is recorded

pub const STRATEGY: &'static str = "overrideAttrs-src-post-patch-tree";

pub const PATCH_HANDLING: &'static str =
    "local source is already post-patch; rebuild clears patches/prePatch/postPatch and replaces patchPhase with hooks only";

pub open spec fn hash_in(info: Option<StorePathView>) -> Option<Text> {
    match info {
        Some(info) => info.nar_hash,
        None => None,
    }
}

pub open spec fn ca_in(info: Option<StorePathView>) -> Option<Text> {
    match info {
        Some(info) => info.ca,
        None => None,
    }
}

/// The metadata of a new fork.
pub open spec fn metadata_for(
    package: ResolvedView,
    label: Text,
    post_patch_source: Text,
    post_patch_info: Option<StorePathView>,
    base_commit: Text,
) -> MetadataView {
    MetadataView {
        format: 1,
        fork: ForkView { label },
        package: PackageView {
            installable: package.installable.original,
            flake_ref: package.installable.flake_ref,
            attribute: package.installable.attribute,
            system: package.system,
            name: package.package_name,
            pname: package.package_pname,
            version: package.package_version,
        },
        base: BaseView {
            nixpkgs_revision: package.flake.revision,
            nixpkgs_last_modified: package.flake.last_modified,
            nixpkgs_locked_nar_hash: package.flake.locked_nar_hash,
            nixpkgs_resolved_url: package.flake.resolved_url,
            nixpkgs_path: package.flake.path,
            derivation: package.derivation,
            output: package.output,
            source: package.source,
            source_revision: package.source_revision,
            source_hash: nix::or_else(package.source_hash, hash_in(package.source_store)),
            source_ca: ca_in(package.source_store),
            post_patch_source,
            post_patch_source_hash: hash_in(post_patch_info),
            git_commit: base_commit,
        },
        build: BuildView { strategy: STRATEGY@, patch_handling: PATCH_HANDLING@ },
    }
}

fn nar_hash_of(info: &Option<StorePathInfo>) -> (r: Option<String>)
    ensures
        r.deep_view() == hash_in(info.deep_view()),
{
    match info {
        Some(info) => info.nar_hash.copied(),
        None => None,
    }
}

fn ca_of(info: &Option<StorePathInfo>) -> (r: Option<String>)
    ensures
        r.deep_view() == ca_in(info.deep_view()),
{
    match info {
        Some(info) => info.ca.copied(),
        None => None,
    }
}

pub fn fork_metadata(
    resolved: &ResolvedPackage,
    label: &str,
    post_patch_source: &str,
    post_patch_info: &Option<StorePathInfo>,
    base_commit: &str,
) -> (r: Metadata)
    ensures
        r.deep_view() == metadata_for(
            resolved.deep_view(),
            label@,
            post_patch_source@,
            post_patch_info.deep_view(),
            base_commit@,
        ),
{
    let source_hash = match &resolved.source_hash {
        Some(hash) => Some(hash.clone()),
        None => nar_hash_of(&resolved.source_store),
    };
    Metadata {
        format: 1,
        fork: ForkMetadata { label: label.to_owned() },
        package: PackageMetadata {
            installable: resolved.installable.original.clone(),
            flake_ref: resolved.installable.flake_ref.clone(),
            attribute: resolved.installable.attribute.clone(),
            system: resolved.system.clone(),
            name: resolved.package_name.copied(),
            pname: resolved.package_pname.copied(),
            version: resolved.package_version.copied(),
        },
        base: BaseMetadata {
            nixpkgs_revision: resolved.flake.revision.copied(),
            nixpkgs_last_modified: resolved.flake.last_modified,
            nixpkgs_locked_nar_hash: resolved.flake.locked_nar_hash.copied(),
            nixpkgs_resolved_url: resolved.flake.resolved_url.copied(),
            nixpkgs_path: resolved.flake.path.copied(),
            derivation: resolved.derivation.clone(),
            output: resolved.output.clone(),
            source: resolved.source.copied(),
            source_revision: resolved.source_revision.copied(),
            source_hash,
            source_ca: ca_of(&resolved.source_store),
            post_patch_source: post_patch_source.to_owned(),
            post_patch_source_hash: nar_hash_of(post_patch_info),
            git_commit: base_commit.to_owned(),
        },
        build: BuildMetadata {
            strategy: STRATEGY.to_owned(),
            patch_handling: PATCH_HANDLING.to_owned(),
        },
    }
}

pub open spec fn fork_lines_of(
    plan: ForkPlanView,
    w: WorkspaceView,
    base_commit: Text,
    output: Text,
) -> Seq<Text> {
    seq![
        "workspace: "@ + w.root,
        "fork: "@ + reference_of(plan.name, plan.label),
        "source: "@ + w.source,
        "base_commit: "@ + base_commit,
        "output: "@ + output,
    ]
}

/// How a new fork is told.
pub fn fork_lines(plan: &ForkPlan, workspace: &Workspace, base_commit: &str, output: &str) -> (r: Vec<
    String,
>)
    ensures
        r.deep_view() == fork_lines_of(
            plan.deep_view(),
            workspace.deep_view(),
            base_commit@,
            output@,
        ),
{
    let mut lines: Vec<String> = Vec::new();
    push_line(&mut lines, cat2("workspace: ", workspace.root.as_str()));
    push_line(
        &mut lines,
        cat2("fork: ", fork_reference(plan.name.as_str(), plan.label.as_str()).as_str()),
    );
    push_line(&mut lines, cat2("source: ", workspace.source.as_str()));
    push_line(&mut lines, cat2("base_commit: ", base_commit));
    push_line(&mut lines, cat2("output: ", output));
    lines
}

} // verus!
