//! Where forks live, what they are called, and how a workspace is laid out.
use vstd::prelude::*;

use crate::hashing::digest_of;
use crate::order::{sort, Ranked};
use crate::paths::{self, is_absolute, join, parent_of, path_not_after};
use crate::snapshot::{self, Snapshot};
use crate::text::{
    self, ascii_alphanumeric, cat2, cat3, cat4, chars_of, fail, push_line, same, trim, CharClass,
    Error, Text,
};

verus! {

/// The label of a fork that was given none.
pub const DEFAULT_LABEL: &'static str = "default";

/// The environment variables that decide where things are kept.
#[derive(Debug, Clone)]
pub struct Environment {
    pub home: Option<String>,
    pub xdg_data_home: Option<String>,
    pub xdg_state_home: Option<String>,
    pub xdg_config_home: Option<String>,
    pub path: Option<String>,
}

pub struct EnvironmentView {
    pub home: Option<Text>,
    pub xdg_data_home: Option<Text>,
    pub xdg_state_home: Option<Text>,
    pub xdg_config_home: Option<Text>,
    pub path: Option<Text>,
}

impl DeepView for Environment {
    type V = EnvironmentView;

    open spec fn deep_view(&self) -> EnvironmentView {
        EnvironmentView {
            home: self.home.deep_view(),
            xdg_data_home: self.xdg_data_home.deep_view(),
            xdg_state_home: self.xdg_state_home.deep_view(),
            xdg_config_home: self.xdg_config_home.deep_view(),
            path: self.path.deep_view(),
        }
    }
}

/// A directory variable counts only where it holds an absolute path.
pub open spec fn absolute_value(value: Option<Text>) -> Option<Text> {
    match value {
        Some(path) => if paths::absolute(path) {
            Some(path)
        } else {
            None
        },
        None => None,
    }
}

pub(crate) fn absolute_or_none(value: &Option<String>) -> (r: Option<String>)
    ensures
        r.deep_view() == absolute_value(value.deep_view()),
{
    match value {
        Some(path) => if is_absolute(path.as_str()) {
            Some(path.clone())
        } else {
            None
        },
        None => None,
    }
}

/// The home directory; the current directory where `HOME` is not absolute.
pub open spec fn home_of(env: EnvironmentView) -> Text {
    match absolute_value(env.home) {
        Some(path) => path,
        None => "."@,
    }
}

fn home_dir(env: &Environment) -> (r: String)
    ensures
        r@ == home_of(env.deep_view()),
{
    match absolute_or_none(&env.home) {
        Some(path) => path,
        None => ".".to_owned(),
    }
}

pub open spec fn data_home_of(env: EnvironmentView) -> Text {
    match absolute_value(env.xdg_data_home) {
        Some(path) => path,
        None => paths::joined(paths::joined(home_of(env), ".local"@), "share"@),
    }
}

fn data_home(env: &Environment) -> (r: String)
    ensures
        r@ == data_home_of(env.deep_view()),
{
    match absolute_or_none(&env.xdg_data_home) {
        Some(path) => path,
        None => join(join(home_dir(env).as_str(), ".local").as_str(), "share"),
    }
}

pub open spec fn state_home_of(env: EnvironmentView) -> Text {
    match absolute_value(env.xdg_state_home) {
        Some(path) => path,
        None => paths::joined(paths::joined(home_of(env), ".local"@), "state"@),
    }
}

/// The directory for state that outlives a run.
pub fn state_home(env: &Environment) -> (r: String)
    ensures
        r@ == state_home_of(env.deep_view()),
{
    match absolute_or_none(&env.xdg_state_home) {
        Some(path) => path,
        None => join(join(home_dir(env).as_str(), ".local").as_str(), "state"),
    }
}

pub open spec fn forks_dir_of(env: EnvironmentView) -> Text {
    paths::joined(paths::joined(data_home_of(env), "forkpkg"@), "forks"@)
}

/// The directory that holds the managed forks.
pub fn forks_dir(env: &Environment) -> (r: String)
    ensures
        r@ == forks_dir_of(env.deep_view()),
{
    join(join(data_home(env).as_str(), "forkpkg").as_str(), "forks")
}

/// The workspace of a package that has a single, unlabelled fork.
pub open spec fn managed_workspace_of(env: EnvironmentView, name: Text) -> Text {
    paths::joined(forks_dir_of(env), sanitized(name))
}

pub fn managed_workspace(env: &Environment, name: &str) -> (r: String)
    ensures
        r@ == managed_workspace_of(env.deep_view(), name@),
{
    join(forks_dir(env).as_str(), sanitize_workspace_name(name).as_str())
}

/// The workspace of one labelled fork of a package.
pub open spec fn labeled_workspace_of(env: EnvironmentView, name: Text, label: Text) -> Text {
    paths::joined(managed_workspace_of(env, name), sanitized(label))
}

pub fn labeled_workspace(env: &Environment, name: &str, label: &str) -> (r: String)
    ensures
        r@ == labeled_workspace_of(env.deep_view(), name@, label@),
{
    join(managed_workspace(env, name).as_str(), sanitize_workspace_name(label).as_str())
}

/// A fork's directory and the two things in it.
#[derive(Debug, Clone)]
pub struct Workspace {
    pub root: String,
    pub source: String,
    pub metadata: String,
}

pub struct WorkspaceView {
    pub root: Text,
    pub source: Text,
    pub metadata: Text,
}

impl DeepView for Workspace {
    type V = WorkspaceView;

    open spec fn deep_view(&self) -> WorkspaceView {
        WorkspaceView { root: self.root@, source: self.source@, metadata: self.metadata@ }
    }
}

pub open spec fn workspace_at(root: Text) -> WorkspaceView {
    WorkspaceView {
        root,
        source: paths::joined(root, "source"@),
        metadata: paths::joined(root, "forkpkg.toml"@),
    }
}

impl Workspace {
    pub fn new(root: String) -> (r: Self)
        ensures
            r.deep_view() == workspace_at(root@),
    {
        let source = join(root.as_str(), "source");
        let metadata = join(root.as_str(), "forkpkg.toml");
        Workspace { root, source, metadata }
    }
}

impl Ranked for Workspace {
    open spec fn le(a: WorkspaceView, b: WorkspaceView) -> bool {
        paths::path_le(a.root, b.root)
    }

    proof fn le_is_total(a: WorkspaceView, b: WorkspaceView) {
        paths::path_le_total(a.root, b.root);
    }

    proof fn le_is_transitive(a: WorkspaceView, b: WorkspaceView, c: WorkspaceView) {
        paths::path_le_transitive(a.root, b.root, c.root);
    }

    fn not_after(&self, other: &Self) -> (r: bool) {
        path_not_after(self.root.as_str(), other.root.as_str())
    }
}

/// The workspace to create, unless something stands at its root already.
pub open spec fn creatable(root: Text, taken: bool) -> Result<WorkspaceView, Text> {
    if taken {
        Err("fork workspace already exists: "@ + root)
    } else {
        Ok(workspace_at(root))
    }
}

/// Decides on the workspace at `root`: one that exists is never reused.
pub fn create_managed(root: &str, taken: bool) -> (r: Result<Workspace, Error>)
    ensures
        text::outcome(r) == creatable(root@, taken),
{
    if taken {
        return Err(fail(cat2("fork workspace already exists: ", root)));
    }
    Ok(Workspace::new(root.to_owned()))
}

/// The directories among `dirs` that hold metadata, as workspaces.
pub open spec fn workspaces_in(dirs: Seq<Text>, snapshot: Snapshot) -> Seq<WorkspaceView>
    decreases dirs.len(),
{
    if dirs.len() == 0 {
        Seq::empty()
    } else {
        let front = workspaces_in(dirs.drop_last(), snapshot);
        if snapshot.has_file(paths::joined(dirs.last(), "forkpkg.toml"@)) {
            front.push(workspace_at(dirs.last()))
        } else {
            front
        }
    }
}

/// The managed forks among the entries of the forks directory, sorted by root.
pub fn list_managed(dirs: &Vec<String>, snapshot: &Snapshot) -> (r: Vec<Workspace>)
    ensures
        r.deep_view() == crate::order::sorted::<Workspace>(
            workspaces_in(dirs.deep_view(), *snapshot),
        ),
{
    let mut found: Vec<Workspace> = Vec::new();
    let ghost all = dirs.deep_view();
    let mut i: usize = 0;
    assert(found.deep_view() =~= workspaces_in(all.take(0), *snapshot));
    while i < dirs.len()
        invariant
            i <= dirs@.len(),
            all == dirs.deep_view(),
            all.len() == dirs@.len(),
            found.deep_view() == workspaces_in(all.take(i as int), *snapshot),
        decreases dirs@.len() - i,
    {
        assert(all.take(i + 1).drop_last() =~= all.take(i as int));
        assert(all.take(i + 1).last() == dirs@[i as int]@);
        if snapshot.is_file(join(dirs[i].as_str(), "forkpkg.toml").as_str()) {
            let ghost before = found.deep_view();
            found.push(Workspace::new(dirs[i].clone()));
            assert(found.deep_view() =~= before.push(workspace_at(dirs@[i as int]@)));
        }
        i += 1;
    }
    assert(all.take(all.len() as int) =~= all);
    sort(found)
}

pub open spec fn holds_metadata(root: Text, snapshot: Snapshot) -> bool {
    snapshot.has_file(paths::joined(root, "forkpkg.toml"@))
}

/// A path and the directories above it, from the path upward.
pub open spec fn ancestors(p: Text) -> Seq<Text>
    decreases p.len(),
{
    match paths::parent(p) {
        None => seq![p],
        Some(above) => {
            proof {
                paths::parents_lack_the_last_component(p);
            }
            seq![p] + ancestors(above)
        },
    }
}

/// The first of the directories that holds metadata.
pub open spec fn first_holding(dirs: Seq<Text>, snapshot: Snapshot) -> Option<Text>
    decreases dirs.len(),
{
    if dirs.len() == 0 {
        None
    } else if holds_metadata(dirs[0], snapshot) {
        Some(dirs[0])
    } else {
        first_holding(dirs.drop_first(), snapshot)
    }
}

/// The workspace that a resolved path lies in: the nearest directory, from the path upward,
/// that holds metadata.
pub open spec fn found_from(start: Text, snapshot: Snapshot) -> Result<WorkspaceView, Text> {
    match first_holding(ancestors(start), snapshot) {
        Some(root) => Ok(workspace_at(root)),
        None => Err("no forkpkg.toml found from the requested path upward"@),
    }
}

/// Looks for a workspace from a resolved directory upward.
pub fn find(start: &str, snapshot: &Snapshot) -> (r: Result<Workspace, Error>)
    ensures
        text::outcome(r) == found_from(start@, *snapshot),
{
    let mut here = start.to_owned();
    loop
        invariant
            first_holding(ancestors(start@), *snapshot) == first_holding(
                ancestors(here@),
                *snapshot,
            ),
        decreases here@.len(),
    {
        assert(ancestors(here@)[0] == here@);
        if snapshot.is_file(join(here.as_str(), "forkpkg.toml").as_str()) {
            return Ok(Workspace::new(here));
        }
        match parent_of(here.as_str()) {
            None => {
                assert(ancestors(here@).drop_first() =~= Seq::empty());
                assert(first_holding(ancestors(here@).drop_first(), *snapshot) is None);
                return Err(fail("no forkpkg.toml found from the requested path upward".to_owned()));
            },
            Some(above) => {
                proof {
                    paths::parents_lack_the_last_component(here@);
                    assert(ancestors(here@).drop_first() =~= ancestors(above@));
                }
                here = above;
            },
        }
    }
}

proof fn lemma_first_holding(dirs: Seq<Text>, snapshot: Snapshot)
    ensures
        match first_holding(dirs, snapshot) {
            Some(root) => exists|k: int|
                0 <= k < dirs.len() && #[trigger] dirs[k] == root && holds_metadata(root, snapshot)
                    && forall|j: int|
                    0 <= j < k ==> !holds_metadata(#[trigger] dirs[j], snapshot),
            None => forall|j: int|
                0 <= j < dirs.len() ==> !holds_metadata(#[trigger] dirs[j], snapshot),
        },
    decreases dirs.len(),
{
    if dirs.len() > 0 && !holds_metadata(dirs[0], snapshot) {
        let rest = dirs.drop_first();
        lemma_first_holding(rest, snapshot);
        match first_holding(dirs, snapshot) {
            Some(root) => {
                let k = choose|k: int|
                    0 <= k < rest.len() && #[trigger] rest[k] == root && holds_metadata(
                        root,
                        snapshot,
                    ) && forall|j: int|
                        0 <= j < k ==> !holds_metadata(#[trigger] rest[j], snapshot);
                assert(dirs[k + 1] == root);
                assert forall|j: int| 0 <= j < k + 1 implies !holds_metadata(
                    #[trigger] dirs[j],
                    snapshot,
                ) by {
                    if j > 0 {
                        assert(rest[j - 1] == dirs[j]);
                    }
                }
            },
            None => {
                assert forall|j: int| 0 <= j < dirs.len() implies !holds_metadata(
                    #[trigger] dirs[j],
                    snapshot,
                ) by {
                    if j > 0 {
                        assert(rest[j - 1] == dirs[j]);
                    }
                }
            },
        }
    }
}

/// What is found from a path is the nearest directory upward that holds metadata, and nothing
/// is found just where none of them does.
pub proof fn the_nearest_workspace_is_found(start: Text, snapshot: Snapshot)
    ensures
        match found_from(start, snapshot) {
            Ok(found) => exists|k: int|
                0 <= k < ancestors(start).len() && workspace_at(#[trigger] ancestors(start)[k])
                    == found && holds_metadata(ancestors(start)[k], snapshot) && forall|j: int|
                    0 <= j < k ==> !holds_metadata(#[trigger] ancestors(start)[j], snapshot),
            Err(_) => forall|j: int|
                0 <= j < ancestors(start).len() ==> !holds_metadata(
                    #[trigger] ancestors(start)[j],
                    snapshot,
                ),
        },
{
    lemma_first_holding(ancestors(start), snapshot);
}

proof fn lemma_found_tidy(start: Text, snapshot: Snapshot)
    requires
        paths::is_tidy(start),
    ensures
        first_holding(ancestors(start), snapshot) matches Some(root) ==> paths::is_tidy(root)
            && holds_metadata(root, snapshot),
    decreases start.len(),
{
    assert(ancestors(start)[0] == start);
    if !holds_metadata(start, snapshot) {
        match paths::parent(start) {
            None => {
                assert(ancestors(start).drop_first() =~= Seq::empty());
                assert(first_holding(ancestors(start).drop_first(), snapshot) is None);
            },
            Some(above) => {
                paths::parents_lack_the_last_component(start);
                assert(ancestors(start).drop_first() =~= ancestors(above));
                lemma_found_tidy(above, snapshot);
            },
        }
    }
}

/// A search from the root of a workspace, and one from its source directory, find that
/// workspace, unless the source directory holds metadata of its own.
pub proof fn a_workspace_is_found_from_its_root_and_its_source(start: Text, snapshot: Snapshot)
    requires
        paths::is_tidy(start),
    ensures
        found_from(start, snapshot) matches Ok(found) ==> {
            &&& found.source == paths::joined(found.root, "source"@)
            &&& found_from(found.root, snapshot) == Ok::<WorkspaceView, Text>(found)
            &&& !holds_metadata(found.source, snapshot) ==> found_from(found.source, snapshot)
                == Ok::<WorkspaceView, Text>(found)
        },
{
    if let Ok(found) = found_from(start, snapshot) {
        lemma_found_tidy(start, snapshot);
        reveal_strlit("source");
        assert(seq!['.'].len() == 1);
        assert(paths::is_entry_name("source"@));
        paths::the_parent_of_an_entry_is_its_directory(found.root, "source"@);
        assert(ancestors(found.root)[0] == found.root);
        paths::parents_lack_the_last_component(found.source);
        assert(ancestors(found.source)[0] == found.source);
        assert(ancestors(found.source).drop_first() =~= ancestors(found.root));
    }
}

/// The directory that a search starts in: the path itself, or its parent for a file.
pub open spec fn search_start_of(start: Text, is_file: bool) -> Result<Text, Text> {
    if is_file {
        match paths::parent(start) {
            Some(parent) => Ok(parent),
            None => Err("path has no parent: "@ + start),
        }
    } else {
        Ok(start)
    }
}

pub fn search_start(start: &str, is_file: bool) -> (r: Result<String, Error>)
    ensures
        text::outcome(r) == search_start_of(start@, is_file),
{
    if is_file {
        match parent_of(start) {
            Some(parent) => Ok(parent),
            None => Err(fail(cat2("path has no parent: ", start))),
        }
    } else {
        Ok(start.to_owned())
    }
}

/// What resolving the path where a search starts gave.
#[derive(Debug, Clone)]
pub enum StartRead {
    Missing,
    Failed { problem: String },
    Resolved { path: String },
}

pub enum StartView {
    Missing,
    Failed { problem: Text },
    Resolved { path: Text },
}

impl DeepView for StartRead {
    type V = StartView;

    open spec fn deep_view(&self) -> StartView {
        match self {
            StartRead::Missing => StartView::Missing,
            StartRead::Failed { problem } => StartView::Failed { problem: problem@ },
            StartRead::Resolved { path } => StartView::Resolved { path: path@ },
        }
    }
}

/// The workspace of a package's fork; without a label the default one, which may also be
/// kept as it was before forks had labels.
pub open spec fn named_workspace(
    env: EnvironmentView,
    name: Text,
    label: Option<Text>,
    snapshot: Snapshot,
) -> Result<WorkspaceView, Text> {
    let label = match label {
        Some(label) => sanitized(label),
        None => DEFAULT_LABEL@,
    };
    if holds_metadata(labeled_workspace_of(env, name, label), snapshot) {
        Ok(workspace_at(labeled_workspace_of(env, name, label)))
    } else if label == DEFAULT_LABEL@ && holds_metadata(managed_workspace_of(env, name), snapshot) {
        Ok(workspace_at(managed_workspace_of(env, name)))
    } else {
        Err("no managed fork found for "@ + name + "/"@ + label)
    }
}

fn find_named(env: &Environment, name: &str, label: &Option<String>, snapshot: &Snapshot) -> (r: Result<
    Workspace,
    Error,
>)
    ensures
        text::outcome(r) == named_workspace(env.deep_view(), name@, label.deep_view(), *snapshot),
{
    let label = match label {
        Some(label) => sanitize_workspace_name(label.as_str()),
        None => DEFAULT_LABEL.to_owned(),
    };
    let root = labeled_workspace(env, name, label.as_str());
    if snapshot.is_file(join(root.as_str(), "forkpkg.toml").as_str()) {
        return Ok(Workspace::new(root));
    }
    let bare = managed_workspace(env, name);
    if same(label.as_str(), DEFAULT_LABEL) && snapshot.is_file(
        join(bare.as_str(), "forkpkg.toml").as_str(),
    ) {
        return Ok(Workspace::new(bare));
    }
    Err(fail(cat4("no managed fork found for ", name, "/", label.as_str())))
}

pub open spec fn workspace_from(start: StartView, snapshot: Snapshot) -> Result<WorkspaceView, Text> {
    match start {
        StartView::Missing => Err("no forkpkg.toml found from the requested path upward"@),
        StartView::Failed { problem } => Err(problem),
        StartView::Resolved { path } => found_from(path, snapshot),
    }
}

/// The workspace that a command is about: the one that a path lies in, or that of the
/// package which the path names.
pub open spec fn selected_workspace(
    env: EnvironmentView,
    path: Option<Text>,
    label: Option<Text>,
    start: StartView,
    snapshot: Snapshot,
) -> Result<WorkspaceView, Text> {
    match path {
        None => if label is Some {
            Err("--label needs a package name"@)
        } else {
            workspace_from(start, snapshot)
        },
        Some(name) => if label is None && !(start is Missing) {
            workspace_from(start, snapshot)
        } else {
            named_workspace(env, name, label, snapshot)
        },
    }
}

/// Selects a workspace. `start` is what resolving the path gave, or the current directory
/// where no path was given.
pub fn resolve_labeled(
    env: &Environment,
    path: &Option<String>,
    label: &Option<String>,
    start: &StartRead,
    snapshot: &Snapshot,
) -> (r: Result<Workspace, Error>)
    ensures
        text::outcome(r) == selected_workspace(
            env.deep_view(),
            path.deep_view(),
            label.deep_view(),
            start.deep_view(),
            *snapshot,
        ),
{
    match path {
        None => {
            if label.is_some() {
                return Err(fail("--label needs a package name".to_owned()));
            }
        },
        Some(name) => {
            let missing = match start {
                StartRead::Missing => true,
                _ => false,
            };
            if label.is_some() || missing {
                return find_named(env, name.as_str(), label, snapshot);
            }
        },
    }
    match start {
        StartRead::Missing => Err(
            fail("no forkpkg.toml found from the requested path upward".to_owned()),
        ),
        StartRead::Failed { problem } => Err(fail(problem.clone())),
        StartRead::Resolved { path } => find(path.as_str(), snapshot),
    }
}

/// Without a label, a path that is there is searched like the current directory.
pub proof fn a_path_is_searched_like_the_current_directory(
    env: EnvironmentView,
    path: Text,
    start: StartView,
    snapshot: Snapshot,
)
    requires
        !(start is Missing),
    ensures
        selected_workspace(env, Some(path), None, start, snapshot) == selected_workspace(
            env,
            None,
            None,
            start,
            snapshot,
        ),
{
}

// ---- What selecting looks at

/// The files that would make each of the directories a workspace.
pub open spec fn metadata_places_of(dirs: Seq<Text>) -> Seq<Text> {
    dirs.map_values(|dir: Text| paths::joined(dir, "forkpkg.toml"@))
}

/// The paths to look at before the workspaces among the directories are listed.
pub fn metadata_places(dirs: &Vec<String>) -> (r: Vec<String>)
    ensures
        r.deep_view() == metadata_places_of(dirs.deep_view()),
{
    let ghost all = metadata_places_of(dirs.deep_view());
    let mut r: Vec<String> = Vec::new();
    let mut i: usize = 0;
    assert(r.deep_view() =~= all.take(0));
    while i < dirs.len()
        invariant
            i <= dirs@.len(),
            all == metadata_places_of(dirs.deep_view()),
            all.len() == dirs@.len(),
            r.deep_view() == all.take(i as int),
        decreases dirs@.len() - i,
    {
        assert(all[i as int] == paths::joined(dirs@[i as int]@, "forkpkg.toml"@));
        push_line(&mut r, join(dirs[i].as_str(), "forkpkg.toml"));
        assert(r.deep_view() =~= all.take(i + 1));
        i += 1;
    }
    assert(all.take(all.len() as int) =~= all);
    r
}

fn list_ancestors(start: &str) -> (r: Vec<String>)
    ensures
        r.deep_view() == ancestors(start@),
{
    let mut r: Vec<String> = Vec::new();
    let mut here = start.to_owned();
    assert(r.deep_view() + ancestors(here@) =~= ancestors(start@));
    loop
        invariant
            r.deep_view() + ancestors(here@) == ancestors(start@),
        decreases here@.len(),
    {
        let ghost before = r.deep_view();
        let above = parent_of(here.as_str());
        proof {
            paths::parents_lack_the_last_component(here@);
        }
        push_line(&mut r, here);
        match above {
            None => {
                assert(r.deep_view() =~= ancestors(start@));
                return r;
            },
            Some(above) => {
                assert(r.deep_view() + ancestors(above@) =~= ancestors(start@));
                here = above;
            },
        }
    }
}

/// The directories in which the workspace that a command is about may be.
pub open spec fn selectable_dirs(
    env: EnvironmentView,
    path: Option<Text>,
    label: Option<Text>,
    start: StartView,
) -> Seq<Text> {
    (match start {
        StartView::Resolved { path } => ancestors(path),
        _ => Seq::empty(),
    }) + (match path {
        None => Seq::empty(),
        Some(name) => {
            let label = match label {
                Some(label) => sanitized(label),
                None => DEFAULT_LABEL@,
            };
            seq![labeled_workspace_of(env, name, label), managed_workspace_of(env, name)]
        },
    })
}

/// The paths to look at before a workspace is selected.
pub fn selection_places(
    env: &Environment,
    path: &Option<String>,
    label: &Option<String>,
    start: &StartRead,
) -> (r: Vec<String>)
    ensures
        r.deep_view() == metadata_places_of(
            selectable_dirs(
                env.deep_view(),
                path.deep_view(),
                label.deep_view(),
                start.deep_view(),
            ),
        ),
{
    let mut dirs = match start {
        StartRead::Resolved { path } => list_ancestors(path.as_str()),
        _ => Vec::new(),
    };
    let ghost above = dirs.deep_view();
    assert(!(start is Resolved) ==> above =~= Seq::empty());
    if let Some(name) = path {
        let label = match label {
            Some(label) => sanitize_workspace_name(label.as_str()),
            None => DEFAULT_LABEL.to_owned(),
        };
        push_line(&mut dirs, labeled_workspace(env, name.as_str(), label.as_str()));
        push_line(&mut dirs, managed_workspace(env, name.as_str()));
    }
    assert(dirs.deep_view() =~= selectable_dirs(
        env.deep_view(),
        path.deep_view(),
        label.deep_view(),
        start.deep_view(),
    ));
    metadata_places(&dirs)
}

proof fn lemma_metadata_place(dirs: Seq<Text>, i: int, a: Snapshot, b: Snapshot)
    requires
        0 <= i < dirs.len(),
        snapshot::told_alike(a, b, metadata_places_of(dirs)),
    ensures
        holds_metadata(dirs[i], a) == holds_metadata(dirs[i], b),
{
    let all = metadata_places_of(dirs);
    assert(all[i] == paths::joined(dirs[i], "forkpkg.toml"@));
    assert(all.contains(paths::joined(dirs[i], "forkpkg.toml"@)));
}

proof fn lemma_listed_alike(dirs: Seq<Text>, a: Snapshot, b: Snapshot)
    requires
        forall|i: int|
            0 <= i < dirs.len() ==> holds_metadata(#[trigger] dirs[i], a) == holds_metadata(
                dirs[i],
                b,
            ),
    ensures
        workspaces_in(dirs, a) == workspaces_in(dirs, b),
    decreases dirs.len(),
{
    if dirs.len() > 0 {
        let front = dirs.drop_last();
        assert forall|i: int| 0 <= i < front.len() implies holds_metadata(#[trigger] front[i], a)
            == holds_metadata(front[i], b) by {
            assert(front[i] == dirs[i]);
        }
        lemma_listed_alike(front, a, b);
        assert(holds_metadata(dirs[dirs.len() - 1], a) == holds_metadata(
            dirs[dirs.len() - 1],
            b,
        ));
    }
}

proof fn lemma_first_alike(dirs: Seq<Text>, a: Snapshot, b: Snapshot)
    requires
        forall|i: int|
            0 <= i < dirs.len() ==> holds_metadata(#[trigger] dirs[i], a) == holds_metadata(
                dirs[i],
                b,
            ),
    ensures
        first_holding(dirs, a) == first_holding(dirs, b),
    decreases dirs.len(),
{
    if dirs.len() > 0 {
        let rest = dirs.drop_first();
        assert(holds_metadata(dirs[0], a) == holds_metadata(dirs[0], b));
        assert forall|i: int| 0 <= i < rest.len() implies holds_metadata(#[trigger] rest[i], a)
            == holds_metadata(rest[i], b) by {
            assert(rest[i] == dirs[i + 1]);
        }
        lemma_first_alike(rest, a, b);
    }
}

/// Which workspaces there are among some directories depends on their metadata places alone.
pub proof fn the_metadata_places_decide(dirs: Seq<Text>, a: Snapshot, b: Snapshot)
    requires
        snapshot::told_alike(a, b, metadata_places_of(dirs)),
    ensures
        workspaces_in(dirs, a) == workspaces_in(dirs, b),
{
    assert forall|i: int| 0 <= i < dirs.len() implies holds_metadata(#[trigger] dirs[i], a)
        == holds_metadata(dirs[i], b) by {
        lemma_metadata_place(dirs, i, a, b);
    }
    lemma_listed_alike(dirs, a, b);
}

/// Which workspace is selected depends on the selection places alone.
pub proof fn the_selection_places_decide(
    env: EnvironmentView,
    path: Option<Text>,
    label: Option<Text>,
    start: StartView,
    a: Snapshot,
    b: Snapshot,
)
    requires
        snapshot::told_alike(
            a,
            b,
            metadata_places_of(selectable_dirs(env, path, label, start)),
        ),
    ensures
        selected_workspace(env, path, label, start, a) == selected_workspace(
            env,
            path,
            label,
            start,
            b,
        ),
{
    let dirs = selectable_dirs(env, path, label, start);
    assert forall|i: int| 0 <= i < dirs.len() implies holds_metadata(#[trigger] dirs[i], a)
        == holds_metadata(dirs[i], b) by {
        lemma_metadata_place(dirs, i, a, b);
    }
    if let StartView::Resolved { path: from } = start {
        let above = ancestors(from);
        assert forall|i: int| 0 <= i < above.len() implies holds_metadata(#[trigger] above[i], a)
            == holds_metadata(above[i], b) by {
            assert(dirs[i] == above[i]);
        }
        lemma_first_alike(above, a, b);
    }
    if let Some(name) = path {
        let last = dirs.len() - 1;
        assert(dirs[last] == managed_workspace_of(env, name));
        assert(holds_metadata(dirs[last - 1], a) == holds_metadata(dirs[last - 1], b));
    }
}

// ---- Copying a source tree

/// The refusal to copy what is no directory.
pub fn check_tree(source: &str, is_dir: bool) -> (r: Result<(), Error>)
    ensures
        text::refusal(r) == (if is_dir {
            None
        } else {
            Some("source is not a directory: "@ + source@)
        }),
{
    if is_dir {
        Ok(())
    } else {
        Err(fail(cat2("source is not a directory: ", source)))
    }
}

/// The kinds of entry that a source tree may hold.
#[derive(Debug, Clone, Copy, PartialEq, Eq, Structural)]
pub enum SourceEntry {
    Symlink,
    Directory,
    File,
    Other,
}

/// What is done with an entry when a source tree is copied.
#[derive(Debug, Clone, Copy, PartialEq, Eq, Structural)]
pub enum CopyStep {
    /// Make a symbolic link with the same target.
    Link,
    /// Make a directory and copy what is in it.
    Descend,
    /// Copy the contents, with these permissions.
    Contents { mode: u32 },
}

/// A link stays a link, and what is copied can be written by its owner.
pub open spec fn copy_step_of(path: Text, entry: SourceEntry, mode: u32) -> Result<CopyStep, Text> {
    match entry {
        SourceEntry::Symlink => Ok(CopyStep::Link),
        SourceEntry::Directory => Ok(CopyStep::Descend),
        SourceEntry::File => Ok(CopyStep::Contents { mode: writable(mode, false) }),
        SourceEntry::Other => Err("unsupported source entry type: "@ + path),
    }
}

/// The permissions with those of the owner added.
pub open spec fn writable(mode: u32, is_dir: bool) -> u32 {
    if is_dir {
        mode | 0o700
    } else {
        mode | 0o600
    }
}

pub fn writable_mode(mode: u32, is_dir: bool) -> (r: u32)
    ensures
        r == writable(mode, is_dir),
{
    if is_dir {
        mode | 0o700
    } else {
        mode | 0o600
    }
}

/// What is copied can be read and written by its owner, and directories searched; no
/// other permission changes.
pub proof fn copies_are_writable(mode: u32)
    ensures
        writable(mode, false) & 0o600 == 0o600,
        writable(mode, true) & 0o700 == 0o700,
        writable(mode, false) & !0o600u32 == mode & !0o600u32,
        writable(mode, true) & !0o700u32 == mode & !0o700u32,
{
    assert((mode | 0o600) & 0o600 == 0o600) by (bit_vector);
    assert((mode | 0o700) & 0o700 == 0o700) by (bit_vector);
    assert((mode | 0o600) & !0o600u32 == mode & !0o600u32) by (bit_vector);
    assert((mode | 0o700) & !0o700u32 == mode & !0o700u32) by (bit_vector);
}

/// Decides how one entry of a source tree is copied.
pub fn copy_entry(path: &str, entry: SourceEntry, mode: u32) -> (r: Result<CopyStep, Error>)
    ensures
        match (r, copy_step_of(path@, entry, mode)) {
            (Ok(step), Ok(expected)) => step == expected,
            (Err(error), Err(problem)) => error@ == problem,
            _ => false,
        },
{
    match entry {
        SourceEntry::Symlink => Ok(CopyStep::Link),
        SourceEntry::Directory => Ok(CopyStep::Descend),
        SourceEntry::File => Ok(CopyStep::Contents { mode: writable_mode(mode, false) }),
        SourceEntry::Other => Err(fail(cat2("unsupported source entry type: ", path))),
    }
}

// ---- Names

/// Characters that a name keeps; each other one becomes a dash.
pub open spec fn name_char(c: char) -> char {
    if text::is_ascii_alphanumeric(c) || c == '.' || c == '_' || c == '-' {
        c
    } else {
        '-'
    }
}

/// The characters of a name, with no dash next to another.
pub open spec fn collapsed(name: Text) -> Text
    decreases name.len(),
{
    if name.len() == 0 {
        Seq::empty()
    } else {
        let front = collapsed(name.drop_last());
        let c = name_char(name.last());
        if c == '-' && front.len() > 0 && front.last() == '-' {
            front
        } else {
            front.push(c)
        }
    }
}

/// A name fit for one directory: letters, digits and `._-`, no doubled dash,
/// no punctuation at its ends, and `fork` where nothing is left.
pub open spec fn sanitized(name: Text) -> Text {
    let kept = text::trimmed(collapsed(name), CharClass::NameEdge);
    if kept.len() == 0 {
        "fork"@
    } else {
        kept
    }
}

pub fn sanitize_workspace_name(name: &str) -> (r: String)
    ensures
        r@ == sanitized(name@),
{
    let chars = chars_of(name);
    let mut out = String::new();
    let mut previous_dash = false;
    let mut i: usize = 0;
    assert(chars@.take(0) =~= Seq::<char>::empty());
    while i < chars.len()
        invariant
            i <= chars@.len(),
            chars@ == name@,
            out@ == collapsed(chars@.take(i as int)),
            previous_dash == (out@.len() > 0 && out@.last() == '-'),
        decreases chars@.len() - i,
    {
        let c = chars[i];
        assert(chars@.take(i + 1).drop_last() =~= chars@.take(i as int));
        let mapped = if ascii_alphanumeric(c) || c == '.' || c == '_' || c == '-' {
            c
        } else {
            '-'
        };
        if mapped != '-' || !previous_dash {
            out.push(mapped);
        }
        previous_dash = mapped == '-';
        i += 1;
    }
    assert(chars@.take(chars@.len() as int) =~= chars@);
    let kept = trim(out.as_str(), CharClass::NameEdge);
    if kept.as_str().is_empty() {
        "fork".to_owned()
    } else {
        kept
    }
}

/// Whether a name is one that sanitizing leaves alone.
pub open spec fn is_plain_name(s: Text) -> bool {
    &&& s.len() > 0
    &&& forall|i: int| 0 <= i < s.len() ==> name_char(#[trigger] s[i]) == s[i]
    &&& forall|i: int| 0 < i < s.len() ==> !(s[i - 1] == '-' && #[trigger] s[i] == '-')
    &&& !CharClass::NameEdge.holds(s[0])
    &&& !CharClass::NameEdge.holds(s.last())
}

proof fn lemma_collapsed(name: Text)
    ensures
        forall|i: int|
            0 <= i < collapsed(name).len() ==> name_char(#[trigger] collapsed(name)[i])
                == collapsed(name)[i],
        forall|i: int|
            0 < i < collapsed(name).len() ==> !(collapsed(name)[i - 1] == '-'
                && #[trigger] collapsed(name)[i] == '-'),
    decreases name.len(),
{
    if name.len() > 0 {
        lemma_collapsed(name.drop_last());
        let front = collapsed(name.drop_last());
        let all = collapsed(name);
        assert forall|i: int| 0 <= i < all.len() implies name_char(#[trigger] all[i]) == all[i] by {
            if i < front.len() {
                assert(all[i] == front[i]);
            }
        }
        assert forall|i: int| 0 < i < all.len() implies !(all[i - 1] == '-' && #[trigger] all[i]
            == '-') by {
            assert(all[i - 1] == front[i - 1]);
            if i < front.len() {
                assert(all[i] == front[i]);
            }
        }
    }
}

proof fn lemma_collapsed_plain(s: Text)
    requires
        forall|i: int| 0 <= i < s.len() ==> name_char(#[trigger] s[i]) == s[i],
        forall|i: int| 0 < i < s.len() ==> !(s[i - 1] == '-' && #[trigger] s[i] == '-'),
    ensures
        collapsed(s) == s,
    decreases s.len(),
{
    if s.len() > 0 {
        let front = s.drop_last();
        assert forall|i: int| 0 <= i < front.len() implies name_char(#[trigger] front[i])
            == front[i] by {
            assert(front[i] == s[i]);
        }
        assert forall|i: int| 0 < i < front.len() implies !(front[i - 1] == '-'
            && #[trigger] front[i] == '-') by {
            assert(front[i] == s[i]);
        }
        lemma_collapsed_plain(front);
        assert(s[s.len() - 1] == s.last());
        assert(front.push(s.last()) =~= s);
    } else {
        assert(s =~= Seq::<char>::empty());
    }
}

/// A sanitized name is never empty, holds letters, digits and `._-` alone, has
/// no doubled dash and no punctuation at its ends; so it is one path component,
/// and neither the current nor the parent directory.
pub proof fn sanitized_names_are_plain(name: Text)
    ensures
        is_plain_name(sanitized(name)),
        !sanitized(name).contains('/'),
        !paths::absolute(sanitized(name)),
        sanitized(name) != seq!['.'],
        sanitized(name) != seq!['.', '.'],
{
    let all = collapsed(name);
    lemma_collapsed(name);
    let (from, to) = text::lemma_trimmed(all, CharClass::NameEdge);
    let kept = all.subrange(from, to);
    let s = sanitized(name);
    if kept.len() == 0 {
        reveal_strlit("fork");
    } else {
        assert(s == kept);
        assert forall|i: int| 0 <= i < s.len() implies name_char(#[trigger] s[i]) == s[i] by {
            assert(s[i] == all[from + i]);
        }
        assert forall|i: int| 0 < i < s.len() implies !(s[i - 1] == '-' && #[trigger] s[i]
            == '-') by {
            assert(s[i] == all[from + i]);
            assert(s[i - 1] == all[from + i - 1]);
        }
    }
    assert(is_plain_name(s));
    assert forall|i: int| 0 <= i < s.len() implies #[trigger] s[i] != '/' by {
        assert(name_char(s[i]) == s[i]);
    }
    assert(s[0] != '.');
}

/// Sanitizing a plain name changes nothing.
pub proof fn plain_names_stay(s: Text)
    requires
        is_plain_name(s),
    ensures
        sanitized(s) == s,
{
    lemma_collapsed_plain(s);
}

/// Sanitizing twice is sanitizing once.
pub proof fn sanitizing_twice_is_once(name: Text)
    ensures
        sanitized(sanitized(name)) == sanitized(name),
{
    sanitized_names_are_plain(name);
    plain_names_stay(sanitized(name));
}

/// A name that tells two packages of one display name apart: the digest of what
/// identifies the package follows the name.
pub open spec fn stable(display_name: Text, identity: Text) -> Text {
    sanitized(display_name) + "-"@ + crate::hashing::text_digest(identity)
}

/// Makes such a name; it is one path component.
pub fn stable_name(display_name: &str, identity: &str) -> (r: String)
    ensures
        r@ == stable(display_name@, identity@),
        !r@.contains('/'),
{
    let name = sanitize_workspace_name(display_name);
    let digest = digest_of(identity);
    let r = cat3(name.as_str(), "-", digest.as_str());
    proof {
        sanitized_names_are_plain(display_name@);
        reveal_strlit("-");
        assert forall|i: int| 0 <= i < r@.len() implies #[trigger] r@[i] != '/' by {
            if i < name@.len() {
                assert(name@.contains(name@[i]));
            } else if i > name@.len() {
                assert(r@[i] == digest@[i - name@.len() - 1]);
            }
        }
    }
    r
}

} // verus!
