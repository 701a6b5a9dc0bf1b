//! What an activation is called and where its record is kept.
use vstd::prelude::*;

use crate::activation::records::ActivationRecord;
use crate::metadata::{Metadata, MetadataView};
use crate::paths::{self, join, paths_match};
use crate::text::{
    self, cat2, cat3, cat4, fail, list_contains, push_line, same, split, Error, Text,
};
use crate::workspace::{
    self, absolute_or_none, sanitize_workspace_name, stable_name, state_home, Environment,
    EnvironmentView, DEFAULT_LABEL,
};

verus! {

// ---- Names and keys

/// What a package is called: its pname, else its name, else its attribute.
pub open spec fn display_name_of(m: MetadataView) -> Text {
    match m.package.pname {
        Some(pname) => pname,
        None => match m.package.name {
            Some(name) => name,
            None => m.package.attribute,
        },
    }
}

pub fn package_display_name(metadata: &Metadata) -> (r: String)
    ensures
        r@ == display_name_of(metadata.deep_view()),
{
    match &metadata.package.pname {
        Some(pname) => pname.clone(),
        None => match &metadata.package.name {
            Some(name) => name.clone(),
            None => metadata.package.attribute.clone(),
        },
    }
}

/// One `label=value` line, followed by `rest`.
pub open spec fn identity_line(label: Text, value: Text, rest: Text) -> Text {
    label + value + "\n"@ + rest
}

/// The lines that tell a package from every other: where it comes from, its
/// attribute, its system and the nixpkgs it was taken from.
pub open spec fn identity_of(m: MetadataView) -> Text {
    identity_line(
        "installable="@,
        m.package.installable,
        identity_line(
            "flake_ref="@,
            m.package.flake_ref,
            identity_line(
                "attribute="@,
                m.package.attribute,
                identity_line(
                    "system="@,
                    m.package.system,
                    identity_line(
                        "nixpkgs_revision="@,
                        text::or_empty(m.base.nixpkgs_revision),
                        identity_line(
                            "nixpkgs_locked_nar_hash="@,
                            text::or_empty(m.base.nixpkgs_locked_nar_hash),
                            identity_line(
                                "nixpkgs_resolved_url="@,
                                text::or_empty(m.base.nixpkgs_resolved_url),
                                identity_line(
                                    "nixpkgs_path="@,
                                    text::or_empty(m.base.nixpkgs_path),
                                    Seq::empty(),
                                ),
                            ),
                        ),
                    ),
                ),
            ),
        ),
    )
}

fn optional_line(label: &str, value: &Option<String>, rest: String) -> (r: String)
    ensures
        r@ == identity_line(label@, text::or_empty(value.deep_view()), rest@),
{
    match value {
        Some(value) => cat4(label, value.as_str(), "\n", rest.as_str()),
        None => {
            let empty = String::new();
            cat4(label, empty.as_str(), "\n", rest.as_str())
        },
    }
}

pub fn package_identity(metadata: &Metadata) -> (r: String)
    ensures
        r@ == identity_of(metadata.deep_view()),
{
    let package = &metadata.package;
    let base = &metadata.base;
    let rest = optional_line("nixpkgs_path=", &base.nixpkgs_path, String::new());
    let rest = optional_line("nixpkgs_resolved_url=", &base.nixpkgs_resolved_url, rest);
    let rest = optional_line("nixpkgs_locked_nar_hash=", &base.nixpkgs_locked_nar_hash, rest);
    let rest = optional_line("nixpkgs_revision=", &base.nixpkgs_revision, rest);
    let rest = cat4("system=", package.system.as_str(), "\n", rest.as_str());
    let rest = cat4("attribute=", package.attribute.as_str(), "\n", rest.as_str());
    let rest = cat4("flake_ref=", package.flake_ref.as_str(), "\n", rest.as_str());
    cat4("installable=", package.installable.as_str(), "\n", rest.as_str())
}

pub open spec fn package_key_of(m: MetadataView) -> Text {
    workspace::stable(display_name_of(m), identity_of(m))
}

/// The directory name of a package's activations.
pub fn package_key(metadata: &Metadata) -> (r: String)
    ensures
        r@ == package_key_of(metadata.deep_view()),
        !r@.contains('/'),
{
    stable_name(package_display_name(metadata).as_str(), package_identity(metadata).as_str())
}

pub open spec fn fork_key_of(m: MetadataView) -> Text {
    package_key_of(m) + "/"@ + workspace::sanitized(m.fork.label)
}

/// The key of one fork's activation.
pub fn fork_key(metadata: &Metadata) -> (r: String)
    ensures
        r@ == fork_key_of(metadata.deep_view()),
{
    cat3(
        package_key(metadata).as_str(),
        "/",
        sanitize_workspace_name(metadata.fork_label()).as_str(),
    )
}

pub open spec fn fork_display_name_of(m: MetadataView) -> Text {
    workspace::sanitized(display_name_of(m)) + "/"@ + workspace::sanitized(m.fork.label)
}

/// How a fork is shown to the user.
pub fn fork_display_name(metadata: &Metadata) -> (r: String)
    ensures
        r@ == fork_display_name_of(metadata.deep_view()),
{
    cat3(
        sanitize_workspace_name(package_display_name(metadata).as_str()).as_str(),
        "/",
        sanitize_workspace_name(metadata.fork_label()).as_str(),
    )
}

// ---- Directories

pub open spec fn activations_dir_of(env: EnvironmentView) -> Text {
    paths::joined(paths::joined(workspace::state_home_of(env), "forkpkg"@), "activations"@)
}

/// The directory that holds the records of all activations.
pub fn activations_dir(env: &Environment) -> (r: String)
    ensures
        r@ == activations_dir_of(env.deep_view()),
{
    join(join(state_home(env).as_str(), "forkpkg").as_str(), "activations")
}

/// The home directory, which activation needs to be absolute.
pub open spec fn required_home(env: EnvironmentView) -> Result<Text, Text> {
    match workspace::absolute_value(env.home) {
        Some(path) => Ok(path),
        None => Err("HOME is not set to an absolute path"@),
    }
}

fn home_dir(env: &Environment) -> (r: Result<String, Error>)
    ensures
        text::outcome(r) == required_home(env.deep_view()),
{
    match absolute_or_none(&env.home) {
        Some(path) => Ok(path),
        None => Err(fail("HOME is not set to an absolute path".to_owned())),
    }
}

pub open spec fn user_bin_dir_of(home: Text) -> Text {
    paths::joined(paths::joined(home, ".local"@), "bin"@)
}

fn user_bin_dir(env: &Environment) -> (r: Result<String, Error>)
    ensures
        text::outcome(r) == (match required_home(env.deep_view()) {
            Ok(home) => Ok(user_bin_dir_of(home)),
            Err(problem) => Err(problem),
        }),
{
    match home_dir(env) {
        Ok(home) => Ok(join(join(home.as_str(), ".local").as_str(), "bin")),
        Err(error) => Err(error),
    }
}

pub open spec fn user_config_dir_of(env: EnvironmentView, home: Text) -> Text {
    match workspace::absolute_value(env.xdg_config_home) {
        Some(path) => path,
        None => paths::joined(home, ".config"@),
    }
}

/// Where activations keep records, links and overrides.
#[derive(Debug, Clone)]
pub struct ActivationPaths {
    pub activations_dir: String,
    pub user_bin_dir: String,
    pub user_config_dir: String,
}

pub struct PathsView {
    pub activations_dir: Text,
    pub user_bin_dir: Text,
    pub user_config_dir: Text,
}

impl DeepView for ActivationPaths {
    type V = PathsView;

    open spec fn deep_view(&self) -> PathsView {
        PathsView {
            activations_dir: self.activations_dir@,
            user_bin_dir: self.user_bin_dir@,
            user_config_dir: self.user_config_dir@,
        }
    }
}

pub open spec fn paths_from(env: EnvironmentView) -> Result<PathsView, Text> {
    match required_home(env) {
        Ok(home) => Ok(
            PathsView {
                activations_dir: activations_dir_of(env),
                user_bin_dir: user_bin_dir_of(home),
                user_config_dir: user_config_dir_of(env, home),
            },
        ),
        Err(problem) => Err(problem),
    }
}

impl PathsView {
    pub open spec fn activation_dir(self, key: Text) -> Text {
        paths::joined(self.activations_dir, key)
    }

    pub open spec fn record_path(self, key: Text) -> Text {
        paths::joined(self.activation_dir(key), "activation.toml"@)
    }
}

impl ActivationPaths {
    /// The directories that the environment asks for; fails without a home.
    pub fn from_env(env: &Environment) -> (r: Result<Self, Error>)
        ensures
            text::outcome(r) == paths_from(env.deep_view()),
    {
        let home = match home_dir(env) {
            Ok(home) => home,
            Err(error) => {
                return Err(error);
            },
        };
        let user_bin_dir = join(join(home.as_str(), ".local").as_str(), "bin");
        let user_config_dir = match absolute_or_none(&env.xdg_config_home) {
            Some(path) => path,
            None => join(home.as_str(), ".config"),
        };
        Ok(ActivationPaths { activations_dir: activations_dir(env), user_bin_dir, user_config_dir })
    }

    /// The directory of one activation.
    pub fn activation_dir(&self, key: &str) -> (r: String)
        ensures
            r@ == self.deep_view().activation_dir(key@),
    {
        join(self.activations_dir.as_str(), key)
    }

    /// The file of one activation's record.
    pub fn record_path(&self, record: &ActivationRecord) -> (r: String)
        ensures
            r@ == self.deep_view().record_path(record.deep_view().key),
    {
        join(self.activation_dir(record.key.as_str()).as_str(), "activation.toml")
    }
}

/// The list with one more element, where it does not hold it yet.
pub open spec fn with_new(list: Seq<Text>, item: Text) -> Seq<Text> {
    if list.contains(item) {
        list
    } else {
        list.push(item)
    }
}

/// The keys that a fork's record may be kept under: its own, and for the default
/// label also those that were used before forks had labels.
pub open spec fn record_keys(m: MetadataView) -> Seq<Text> {
    if m.fork.label == DEFAULT_LABEL@ {
        with_new(
            with_new(seq![fork_key_of(m)], package_key_of(m)),
            workspace::sanitized(display_name_of(m)),
        )
    } else {
        seq![fork_key_of(m)]
    }
}

pub open spec fn record_paths_of(m: MetadataView, p: PathsView) -> Seq<Text> {
    record_keys(m).map_values(|key: Text| p.record_path(key))
}

/// The files that a fork's record may be in, the current one first.
pub fn record_paths_for_metadata(metadata: &Metadata, paths: &ActivationPaths) -> (r: Vec<String>)
    ensures
        r.deep_view() == record_paths_of(metadata.deep_view(), paths.deep_view()),
{
    let legacy_key = sanitize_workspace_name(package_display_name(metadata).as_str());
    let package_key = package_key(metadata);
    let mut keys: Vec<String> = Vec::new();
    push_line(&mut keys, fork_key(metadata));
    assert(keys.deep_view() =~= seq![fork_key_of(metadata.deep_view())]);
    if same(metadata.fork_label(), DEFAULT_LABEL) {
        if !list_contains(&keys, package_key.as_str()) {
            push_line(&mut keys, package_key);
        }
        if !list_contains(&keys, legacy_key.as_str()) {
            push_line(&mut keys, legacy_key);
        }
    }
    let ghost wanted = record_keys(metadata.deep_view());
    assert(keys.deep_view() == wanted);
    let mut r: Vec<String> = Vec::new();
    let mut i: usize = 0;
    let ghost expected = record_paths_of(metadata.deep_view(), paths.deep_view());
    while i < keys.len()
        invariant
            i <= keys@.len(),
            keys.deep_view() == wanted,
            wanted.len() == keys@.len(),
            expected == wanted.map_values(|key: Text| paths.deep_view().record_path(key)),
            r.deep_view() == expected.take(i as int),
        decreases keys@.len() - i,
    {
        assert(wanted[i as int] == keys@[i as int]@);
        push_line(
            &mut r,
            join(paths.activation_dir(keys[i].as_str()).as_str(), "activation.toml"),
        );
        assert(expected.take(i + 1) =~= expected.take(i as int).push(expected[i as int]));
        i += 1;
    }
    assert(expected.take(expected.len() as int) =~= expected);
    r
}

// ---- The PATH hint

/// Whether one of the `:`-separated entries is the directory.
pub open spec fn on_path(path: Text, dir: Text) -> bool {
    exists|i: int|
        0 <= i < text::pieces(path, ':').len() && paths::same_path(
            #[trigger] text::pieces(path, ':')[i],
            dir,
        )
}

/// A hint for the user where the directory of links is not searched for commands.
pub open spec fn hint_for(env: EnvironmentView) -> Result<Option<Text>, Text> {
    match required_home(env) {
        Err(problem) => Err(problem),
        Ok(home) => if on_path(text::or_empty(env.path), user_bin_dir_of(home)) {
            Ok(None)
        } else {
            Ok(Some(user_bin_dir_of(home) + " is not currently in PATH"@))
        },
    }
}

pub fn path_hint(env: &Environment) -> (r: Result<Option<String>, Error>)
    ensures
        text::outcome(r) == hint_for(env.deep_view()),
{
    let user_bin = match user_bin_dir(env) {
        Ok(user_bin) => user_bin,
        Err(error) => {
            return Err(error);
        },
    };
    let path = match &env.path {
        Some(path) => path.clone(),
        None => String::new(),
    };
    let entries = split(path.as_str(), ':');
    let ghost all = entries.deep_view();
    let mut i: usize = 0;
    while i < entries.len()
        invariant
            i <= entries@.len(),
            all == entries.deep_view(),
            all == text::pieces(path@, ':'),
            all.len() == entries@.len(),
            forall|j: int| 0 <= j < i ==> !paths::same_path(#[trigger] all[j], user_bin@),
            path@ == text::or_empty(env.deep_view().path),
            required_home(env.deep_view()) is Ok,
            user_bin@ == user_bin_dir_of(required_home(env.deep_view())->Ok_0),
        decreases entries@.len() - i,
    {
        assert(all[i as int] == entries@[i as int]@);
        if paths_match(entries[i].as_str(), user_bin.as_str()) {
            return Ok(None);
        }
        i += 1;
    }
    Ok(Some(cat2(user_bin.as_str(), " is not currently in PATH")))
}

// ---- Laws

proof fn lemma_identity_line(label: Text, a: Text, rest_a: Text, b: Text, rest_b: Text)
    requires
        !a.contains('\n'),
        !b.contains('\n'),
        identity_line(label, a, rest_a) == identity_line(label, b, rest_b),
    ensures
        a == b,
        rest_a == rest_b,
{
    reveal_strlit("\n");
    let x = identity_line(label, a, rest_a);
    let y = identity_line(label, b, rest_b);
    let n = label.len();
    assert(x.skip(n as int) =~= a + "\n"@ + rest_a);
    assert(y.skip(n as int) =~= b + "\n"@ + rest_b);
    let u = x.skip(n as int);
    assert(u[a.len() as int] == '\n');
    assert(u[b.len() as int] == '\n');
    if a.len() < b.len() {
        assert(b[a.len() as int] == u[a.len() as int]);
        assert(b.contains('\n'));
    }
    if b.len() < a.len() {
        assert(a[b.len() as int] == u[b.len() as int]);
        assert(a.contains('\n'));
    }
    assert(u.take(a.len() as int) =~= a);
    assert(u.take(b.len() as int) =~= b);
    assert(u.skip(a.len() as int + 1) =~= rest_a);
    assert(u.skip(b.len() as int + 1) =~= rest_b);
}

/// Whether none of the texts that identify a package holds a line break.
pub open spec fn identity_is_clean(m: MetadataView) -> bool {
    &&& !m.package.installable.contains('\n')
    &&& !m.package.flake_ref.contains('\n')
    &&& !m.package.attribute.contains('\n')
    &&& !m.package.system.contains('\n')
    &&& !text::or_empty(m.base.nixpkgs_revision).contains('\n')
    &&& !text::or_empty(m.base.nixpkgs_locked_nar_hash).contains('\n')
    &&& !text::or_empty(m.base.nixpkgs_resolved_url).contains('\n')
    &&& !text::or_empty(m.base.nixpkgs_path).contains('\n')
}

/// Packages with the same identity agree in every field that identifies them; so
/// packages for different systems, or from different sources, are told apart.
pub proof fn identity_tells_packages_apart(a: MetadataView, b: MetadataView)
    requires
        identity_is_clean(a),
        identity_is_clean(b),
        identity_of(a) == identity_of(b),
    ensures
        a.package.installable == b.package.installable,
        a.package.flake_ref == b.package.flake_ref,
        a.package.attribute == b.package.attribute,
        a.package.system == b.package.system,
        text::or_empty(a.base.nixpkgs_revision) == text::or_empty(b.base.nixpkgs_revision),
        text::or_empty(a.base.nixpkgs_locked_nar_hash) == text::or_empty(
            b.base.nixpkgs_locked_nar_hash,
        ),
        text::or_empty(a.base.nixpkgs_resolved_url) == text::or_empty(b.base.nixpkgs_resolved_url),
        text::or_empty(a.base.nixpkgs_path) == text::or_empty(b.base.nixpkgs_path),
{
    let none = Seq::<char>::empty();
    let a8 = identity_line("nixpkgs_path="@, text::or_empty(a.base.nixpkgs_path), none);
    let b8 = identity_line("nixpkgs_path="@, text::or_empty(b.base.nixpkgs_path), none);
    let a7 = identity_line(
        "nixpkgs_resolved_url="@,
        text::or_empty(a.base.nixpkgs_resolved_url),
        a8,
    );
    let b7 = identity_line(
        "nixpkgs_resolved_url="@,
        text::or_empty(b.base.nixpkgs_resolved_url),
        b8,
    );
    let a6 = identity_line(
        "nixpkgs_locked_nar_hash="@,
        text::or_empty(a.base.nixpkgs_locked_nar_hash),
        a7,
    );
    let b6 = identity_line(
        "nixpkgs_locked_nar_hash="@,
        text::or_empty(b.base.nixpkgs_locked_nar_hash),
        b7,
    );
    let a5 = identity_line("nixpkgs_revision="@, text::or_empty(a.base.nixpkgs_revision), a6);
    let b5 = identity_line("nixpkgs_revision="@, text::or_empty(b.base.nixpkgs_revision), b6);
    let a4 = identity_line("system="@, a.package.system, a5);
    let b4 = identity_line("system="@, b.package.system, b5);
    let a3 = identity_line("attribute="@, a.package.attribute, a4);
    let b3 = identity_line("attribute="@, b.package.attribute, b4);
    let a2 = identity_line("flake_ref="@, a.package.flake_ref, a3);
    let b2 = identity_line("flake_ref="@, b.package.flake_ref, b3);
    lemma_identity_line("installable="@, a.package.installable, a2, b.package.installable, b2);
    lemma_identity_line("flake_ref="@, a.package.flake_ref, a3, b.package.flake_ref, b3);
    lemma_identity_line("attribute="@, a.package.attribute, a4, b.package.attribute, b4);
    lemma_identity_line("system="@, a.package.system, a5, b.package.system, b5);
    lemma_identity_line(
        "nixpkgs_revision="@,
        text::or_empty(a.base.nixpkgs_revision),
        a6,
        text::or_empty(b.base.nixpkgs_revision),
        b6,
    );
    lemma_identity_line(
        "nixpkgs_locked_nar_hash="@,
        text::or_empty(a.base.nixpkgs_locked_nar_hash),
        a7,
        text::or_empty(b.base.nixpkgs_locked_nar_hash),
        b7,
    );
    lemma_identity_line(
        "nixpkgs_resolved_url="@,
        text::or_empty(a.base.nixpkgs_resolved_url),
        a8,
        text::or_empty(b.base.nixpkgs_resolved_url),
        b8,
    );
    lemma_identity_line(
        "nixpkgs_path="@,
        text::or_empty(a.base.nixpkgs_path),
        none,
        text::or_empty(b.base.nixpkgs_path),
        none,
    );
}

/// A package's key begins with its sanitized display name and a dash.
pub proof fn package_keys_begin_with_the_name(m: MetadataView)
    ensures
        text::is_prefix(workspace::sanitized(display_name_of(m)) + "-"@, package_key_of(m)),
{
    let head = workspace::sanitized(display_name_of(m)) + "-"@;
    assert(package_key_of(m).take(head.len() as int) =~= head);
}

} // verus!
