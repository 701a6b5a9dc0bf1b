//! Making a fork: what it is made from, where it goes and how it is found again.
use vstd::prelude::*;

use crate::command::CommandView;
use crate::forking;
use crate::git::{self, InitView};
use crate::laws::building;
use crate::nix::{self, FlakeView, PackageEvalView, ResolvedView, StorePathView};
use crate::snapshot::Snapshot;
use crate::text::{self, Text};
use crate::workspace::{self, EnvironmentView, WorkspaceView, DEFAULT_LABEL};

verus! {

// ---- Installables

proof fn lemma_halves(flake_ref: Text, attribute: Text)
    requires
        !flake_ref.contains('#'),
    ensures
        text::halves(flake_ref + "#"@ + attribute, '#') == Some((flake_ref, attribute)),
{
    reveal_strlit("#");
    let whole = flake_ref + "#"@ + attribute;
    let p = flake_ref.len() as int;
    assert forall|i: int| 0 <= i < p implies whole[i] != '#' by {
        assert(whole[i] == flake_ref[i]);
    }
    assert(whole[p] == '#');
    text::lemma_position_unique(whole, '#', p);
    assert(whole.take(p) =~= flake_ref);
    assert(whole.skip(p + 1) =~= attribute);
}

/// An installable `f#a` means the attribute `a` of the flake `f`, and is kept as it was
/// given. It is refused just where either is blank, where `a` chooses an output, or where
/// `a` holds nothing but dots.
pub proof fn installables_are_taken_apart(flake_ref: Text, attribute: Text)
    requires
        !flake_ref.contains('#'),
    ensures
        (nix::installable_in(flake_ref + "#"@ + attribute) is Ok) == ({
            &&& text::stripped(flake_ref).len() > 0
            &&& text::stripped(attribute).len() > 0
            &&& !attribute.contains('^')
            &&& exists|i: int| 0 <= i < attribute.len() && #[trigger] attribute[i] != '.'
        }),
        nix::installable_in(flake_ref + "#"@ + attribute) matches Ok(installable) ==> {
            &&& installable.original == flake_ref + "#"@ + attribute
            &&& installable.flake_ref == flake_ref
            &&& installable.attribute == attribute
            &&& installable.attr_path == nix::attribute_path(attribute)
        },
{
    lemma_halves(flake_ref, attribute);
    lemma_caret(attribute);
    lemma_path_is_empty(attribute);
}

proof fn lemma_caret(attribute: Text)
    ensures
        text::occurs(attribute, "^"@) == attribute.contains('^'),
{
    reveal_strlit("^");
    if attribute.contains('^') {
        let i = choose|i: int| 0 <= i < attribute.len() && attribute[i] == '^';
        assert(attribute.subrange(i, i + 1) =~= "^"@);
        assert(text::occurs_at(attribute, "^"@, i));
    }
    if text::occurs(attribute, "^"@) {
        let i = choose|i: int| #[trigger] text::occurs_at(attribute, "^"@, i);
        assert(attribute.subrange(i, i + 1)[0] == attribute[i]);
    }
}

/// Without a `#` a text is no installable.
pub proof fn installables_need_a_flake(input: Text)
    requires
        !input.contains('#'),
    ensures
        nix::installable_in(input) is Err,
{
    text::lemma_position(input, '#');
}

// ---- Attribute paths

proof fn lemma_nonempty_add(a: Seq<Text>, b: Seq<Text>)
    ensures
        text::nonempty(a + b) == text::nonempty(a) + text::nonempty(b),
    decreases b.len(),
{
    if b.len() == 0 {
        assert(a + b =~= a);
        assert(text::nonempty(a) + text::nonempty(b) =~= text::nonempty(a));
    } else {
        lemma_nonempty_add(a, b.drop_last());
        assert((a + b).drop_last() =~= a + b.drop_last());
        assert((a + b).last() == b.last());
        assert(text::nonempty(a + b) =~= text::nonempty(a) + text::nonempty(b));
    }
}

proof fn lemma_nonempty_one(part: Text)
    ensures
        text::nonempty(seq![part]) == (if part.len() == 0 {
            Seq::empty()
        } else {
            seq![part]
        }),
{
    let one = seq![part];
    assert(one.drop_last() =~= Seq::empty());
    assert(text::nonempty(one.drop_last()) =~= Seq::empty());
    assert(text::nonempty(one) =~= (if part.len() == 0 {
        Seq::empty()
    } else {
        seq![part]
    }));
}

proof fn lemma_path_is_empty(attribute: Text)
    ensures
        (nix::attribute_path(attribute).len() > 0) == (exists|i: int|
            0 <= i < attribute.len() && #[trigger] attribute[i] != '.'),
    decreases attribute.len(),
{
    text::lemma_position(attribute, '.');
    let p = text::position(attribute, '.') as int;
    if p < attribute.len() {
        let rest = attribute.skip(p + 1);
        lemma_path_is_empty(rest);
        lemma_nonempty_add(seq![attribute.take(p)], text::pieces(rest, '.'));
        lemma_nonempty_one(attribute.take(p));
        if p > 0 {
            assert(attribute[0] != '.');
        }
        if exists|i: int| 0 <= i < rest.len() && #[trigger] rest[i] != '.' {
            let i = choose|i: int| 0 <= i < rest.len() && #[trigger] rest[i] != '.';
            assert(attribute[p + 1 + i] != '.');
        }
        if exists|i: int| 0 <= i < attribute.len() && #[trigger] attribute[i] != '.' {
            let i = choose|i: int| 0 <= i < attribute.len() && #[trigger] attribute[i] != '.';
            if i > p {
                assert(rest[i - p - 1] == attribute[i]);
            } else if i < p {
                assert(p > 0);
            }
        }
    } else {
        lemma_nonempty_one(attribute);
        if attribute.len() > 0 {
            assert(attribute[0] != '.');
        }
    }
}

/// The names of an attribute path are those that stand between the dots: a path that is
/// written with dots between its names leads through these names.
pub proof fn attribute_paths_lead_through_their_names(names: Seq<Text>)
    requires
        forall|i: int|
            0 <= i < names.len() ==> (#[trigger] names[i]).len() > 0 && !names[i].contains('.'),
        names.len() > 0,
    ensures
        nix::attribute_path(text::joined(names, "."@)) == names,
    decreases names.len(),
{
    reveal_strlit(".");
    let last = names.last();
    text::lemma_position(last, '.');
    assert(text::position(last, '.') == last.len()) by {
        if text::position(last, '.') < last.len() {
            assert(last.contains(last[text::position(last, '.') as int]));
        }
    }
    lemma_nonempty_one(last);
    if names.len() > 1 {
        let front = names.drop_last();
        assert forall|i: int| 0 <= i < front.len() implies (#[trigger] front[i]).len() > 0
            && !front[i].contains('.') by {
            assert(front[i] == names[i]);
        }
        attribute_paths_lead_through_their_names(front);
        let before = text::joined(front, "."@);
        assert(before + "."@ + last =~= before.push('.') + last);
        text::lemma_pieces_joined(before, last, '.');
        lemma_nonempty_add(text::pieces(before, '.'), seq![last]);
        assert(front + seq![last] =~= names);
    } else {
        assert(names =~= seq![last]);
    }
}

// ---- What a fork remembers

/// A new fork of the installable `f#a` remembers `f`, `a` and the installable, which is the
/// two with a `#` between them.
pub proof fn forks_remember_their_installable(
    flake_ref: Text,
    attribute: Text,
    eval: PackageEvalView,
    flake: FlakeView,
    source_store: Option<StorePathView>,
    label: Text,
    post_patch_source: Text,
    post_patch_info: Option<StorePathView>,
    base_commit: Text,
)
    requires
        !flake_ref.contains('#'),
    ensures
        nix::installable_in(flake_ref + "#"@ + attribute) matches Ok(installable) ==> {
            let m = forking::metadata_for(
                nix::resolved(installable, eval, flake, source_store),
                label,
                post_patch_source,
                post_patch_info,
                base_commit,
            );
            &&& m.package.flake_ref == flake_ref
            &&& m.package.attribute == attribute
            &&& m.package.installable == m.package.flake_ref + "#"@ + m.package.attribute
        },
{
    installables_are_taken_apart(flake_ref, attribute);
}

/// A new fork remembers what nix told of the package, its flake, its source before and after
/// the patches, and the commit that holds the latter.
pub proof fn forks_remember_what_nix_told(
    input: Text,
    eval: PackageEvalView,
    flake: FlakeView,
    source_store: Option<StorePathView>,
    label: Text,
    post_patch_source: Text,
    post_patch_info: Option<StorePathView>,
    base_commit: Text,
)
    ensures
        nix::installable_in(input) matches Ok(installable) ==> {
            let m = forking::metadata_for(
                nix::resolved(installable, eval, flake, source_store),
                label,
                post_patch_source,
                post_patch_info,
                base_commit,
            );
            &&& m.format == 1
            &&& m.fork.label == label
            &&& m.package.installable == input
            &&& m.package.system == eval.system
            &&& m.package.name == eval.package_name
            &&& m.package.pname == eval.package_pname
            &&& m.package.version == eval.package_version
            &&& m.base.nixpkgs_revision == flake.revision
            &&& m.base.nixpkgs_last_modified == flake.last_modified
            &&& m.base.nixpkgs_locked_nar_hash == flake.locked_nar_hash
            &&& m.base.nixpkgs_resolved_url == flake.resolved_url
            &&& m.base.nixpkgs_path == flake.path
            &&& m.base.derivation == eval.derivation
            &&& m.base.output == eval.output
            &&& m.base.source == eval.source
            &&& m.base.source_revision == eval.source_revision
            &&& eval.source_hash is Some ==> m.base.source_hash == eval.source_hash
            &&& eval.source_hash is None && source_store is Some ==> m.base.source_hash
                == source_store->0.nar_hash
            &&& eval.source_hash is None && source_store is None ==> m.base.source_hash is None
            &&& source_store is Some ==> m.base.source_ca == source_store->0.ca
            &&& source_store is None ==> m.base.source_ca is None
            &&& m.base.post_patch_source == post_patch_source
            &&& post_patch_info is Some ==> m.base.post_patch_source_hash
                == post_patch_info->0.nar_hash
            &&& post_patch_info is None ==> m.base.post_patch_source_hash is None
            &&& m.base.git_commit == base_commit
            &&& m.build.strategy == "overrideAttrs-src-post-patch-tree"@
        },
{
}

/// An unchanged fork is built from the very package whose source was materialized for it: the
/// same flake, attribute path and message where there is none.
pub proof fn forks_are_built_where_they_came_from(
    input: Text,
    eval: PackageEvalView,
    flake: FlakeView,
    source_store: Option<StorePathView>,
    label: Text,
    post_patch_source: Text,
    post_patch_info: Option<StorePathView>,
    base_commit: Text,
    source_path: Text,
    source: Text,
)
    ensures
        nix::installable_in(input) matches Ok(installable) ==> {
            let m = forking::metadata_for(
                nix::resolved(installable, eval, flake, source_store),
                label,
                post_patch_source,
                post_patch_info,
                base_commit,
            );
            let made = building::expression_in(
                nix::build_arguments(nix::materialization(installable)),
            );
            let told = building::expression_in(nix::evaluation_arguments(installable));
            &&& nix::fork_build(
                m,
                source_path,
                nix::PathReadView::Resolved { path: source },
            ) matches Ok(arguments) && building::expression_in(arguments) matches Some(
                built,
            ) && {
                &&& made is Some
                &&& told is Some
                &&& building::string_after(built, "builtins.getFlake "@) is Some
                &&& building::string_after(built, "builtins.getFlake "@) == building::string_after(
                    made->0,
                    "builtins.getFlake "@,
                )
                &&& building::string_after(built, "builtins.getFlake "@) == building::string_after(
                    told->0,
                    "builtins.getFlake "@,
                )
                &&& building::list_after(built, "attrByPath "@) is Some
                &&& building::list_after(built, "attrByPath "@) == building::list_after(
                    made->0,
                    "attrByPath "@,
                )
                &&& building::list_after(built, "attrByPath "@) == building::list_after(
                    told->0,
                    "attrByPath "@,
                )
                &&& building::string_after(built, ".legacyPackages.${"@) == Some(eval.system)
            }
        },
{
    if let Ok(installable) = nix::installable_in(input) {
        let m = forking::metadata_for(
            nix::resolved(installable, eval, flake, source_store),
            label,
            post_patch_source,
            post_patch_info,
            base_commit,
        );
        building::packages_are_looked_up_where_installables_say(installable);
        building::forks_are_built_from_their_source(
            m,
            source_path,
            nix::PathReadView::Resolved { path: source },
        );
    }
}

/// The base commit tells of the installable, with the revision of its flake where that is
/// known.
pub proof fn base_commits_tell_of_the_package(package: ResolvedView)
    ensures
        package.flake.revision is None ==> forking::description_of(package)
            == package.installable.original,
        package.flake.revision is Some ==> forking::description_of(package)
            == package.installable.flake_ref + "@"@ + package.flake.revision->0 + "#"@
            + package.installable.attribute,
{
}

// ---- Where a fork goes

/// A fork that was placed is found by the name and the label that it was placed under, once
/// its metadata is there; with the default label also without one.
pub proof fn placed_forks_are_found(
    env: EnvironmentView,
    name: Text,
    label: Text,
    taken: bool,
    snapshot: Snapshot,
)
    ensures
        workspace::creatable(workspace::labeled_workspace_of(env, name, label), taken) matches Ok(
            placed,
        ) ==> snapshot.has_file(placed.metadata) ==> {
            &&& workspace::named_workspace(env, name, Some(label), snapshot) == Ok::<
                WorkspaceView,
                Text,
            >(placed)
            &&& workspace::sanitized(label) == DEFAULT_LABEL@ ==> workspace::named_workspace(
                env,
                name,
                None,
                snapshot,
            ) == Ok::<WorkspaceView, Text>(placed)
        },
{
    workspace::sanitizing_twice_is_once(label);
    assert(workspace::sanitized(DEFAULT_LABEL@) == DEFAULT_LABEL@) by {
        workspace::sanitizing_twice_is_once(label);
        lemma_default_label_is_plain();
    }
}

proof fn lemma_default_label_is_plain()
    ensures
        workspace::sanitized(DEFAULT_LABEL@) == DEFAULT_LABEL@,
{
    reveal_strlit("default");
    let s = DEFAULT_LABEL@;
    assert(s.len() == 7);
    assert forall|i: int| 0 <= i < s.len() implies workspace::name_char(#[trigger] s[i]) == s[i]
        && s[i] != '-' by {
        assert(i == 0 || i == 1 || i == 2 || i == 3 || i == 4 || i == 5 || i == 6);
    }
    workspace::plain_names_stay(s);
}

/// A planned fork goes where its name and label lead, and is found there by them.
pub proof fn planned_forks_are_placed_under_their_name(
    env: EnvironmentView,
    plan: forking::ForkPlanView,
    taken: bool,
    snapshot: Snapshot,
)
    ensures
        (forking::placed(env, plan, taken) is Ok) == !taken,
        forking::placed(env, plan, taken) matches Ok(w) ==> {
            &&& crate::paths::components(w.root) == crate::paths::components(
                workspace::forks_dir_of(env),
            ) + seq![workspace::sanitized(plan.name), workspace::sanitized(plan.label)]
            &&& snapshot.has_file(w.metadata) ==> workspace::named_workspace(
                env,
                plan.name,
                Some(plan.label),
                snapshot,
            ) == Ok::<WorkspaceView, Text>(w)
        },
{
    forks_are_placed_apart(env, plan.name, plan.label);
    placed_forks_are_found(env, plan.name, plan.label, taken, snapshot);
}

/// A fork is never placed where something stands, and its root holds its source and its
/// metadata.
pub proof fn placed_forks_are_new(root: Text, taken: bool)
    ensures
        (workspace::creatable(root, taken) is Ok) == !taken,
        workspace::creatable(root, taken) matches Ok(placed) ==> {
            &&& placed.root == root
            &&& placed.source == crate::paths::joined(root, "source"@)
            &&& placed.metadata == crate::paths::joined(root, "forkpkg.toml"@)
        },
{
}

/// Forks are placed below the forks directory, in one directory for the package and one in it
/// for the label; so forks with different names or labels are placed apart.
pub proof fn forks_are_placed_apart(env: EnvironmentView, name: Text, label: Text)
    ensures
        crate::paths::components(workspace::labeled_workspace_of(env, name, label))
            == crate::paths::components(workspace::forks_dir_of(env)) + seq![
            workspace::sanitized(name),
            workspace::sanitized(label),
        ],
{
    workspace::sanitized_names_are_plain(name);
    workspace::sanitized_names_are_plain(label);
    let forks = workspace::forks_dir_of(env);
    let package = workspace::managed_workspace_of(env, name);
    crate::paths::lemma_entry_name_pieces(workspace::sanitized(name));
    crate::paths::lemma_entry_name_pieces(workspace::sanitized(label));
    lemma_forks_dir_is_there(env);
    crate::paths::lemma_joined_components(forks, workspace::sanitized(name));
    crate::paths::lemma_joined_components(package, workspace::sanitized(label));
    assert(crate::paths::components(workspace::labeled_workspace_of(env, name, label))
        =~= crate::paths::components(forks) + seq![
        workspace::sanitized(name),
        workspace::sanitized(label),
    ]);
}

proof fn lemma_forks_dir_is_there(env: EnvironmentView)
    ensures
        workspace::forks_dir_of(env).len() > 0,
{
    reveal_strlit("forks");
}

// ---- Labels

/// A fork gets the label that was asked for, as a plain name. Without one it gets the default
/// label where it is the package's first, and is refused otherwise.
pub proof fn labels_are_given(requested: Option<Text>, package: Text, existing_count: nat)
    ensures
        (forking::label_for(requested, package, existing_count) is Ok) == (requested is Some
            || existing_count == 0),
        forking::label_for(requested, package, existing_count) matches Ok(label) ==> {
            &&& workspace::is_plain_name(label)
            &&& requested is None ==> label == "default"@
            &&& requested is Some && workspace::is_plain_name(requested->0) ==> label
                == requested->0
        },
{
    if let Some(label) = requested {
        workspace::sanitized_names_are_plain(label);
        if workspace::is_plain_name(label) {
            workspace::plain_names_stay(label);
        }
    } else {
        lemma_default_label_is_plain();
        workspace::sanitized_names_are_plain(DEFAULT_LABEL@);
    }
}

/// The workspaces of a package are named after it: its pname, else the last name of its
/// attribute path.
pub proof fn workspaces_are_named_after_the_package(package: ResolvedView)
    ensures
        workspace::is_plain_name(forking::workspace_name_of(package)),
        package.package_pname matches Some(pname) ==> workspace::is_plain_name(pname)
            ==> forking::workspace_name_of(package) == pname,
        package.package_pname is None && package.installable.attr_path.len() > 0
            && workspace::is_plain_name(package.installable.attr_path.last())
            ==> forking::workspace_name_of(package) == package.installable.attr_path.last(),
{
    let from = match package.package_pname {
        Some(pname) => pname,
        None => if package.installable.attr_path.len() > 0 {
            package.installable.attr_path.last()
        } else {
            match package.package_name {
                Some(name) => name,
                None => "package"@,
            }
        },
    };
    workspace::sanitized_names_are_plain(from);
    if workspace::is_plain_name(from) {
        workspace::plain_names_stay(from);
    }
}

// ---- The base commit

/// A source tree: whether it holds files, whether it is a repository, whether everything is
/// staged, and the messages of its commits.
pub struct SourceTree {
    pub has_files: bool,
    pub is_repository: bool,
    pub staged: bool,
    pub commits: Seq<Text>,
}

/// A command that does not succeed.
pub open spec fn failed() -> CommandView {
    CommandView::Exited { status: "exit status: 128"@, stderr: Seq::empty() }
}

pub open spec fn quiet() -> CommandView {
    CommandView::Printed { stdout: Seq::empty() }
}

/// What a Git command does in a source tree and prints, where `head` is the hash of the
/// commit that is made.
pub open spec fn git_does(t: SourceTree, source: Text, head: Text, arguments: Seq<Text>) -> (
    SourceTree,
    CommandView,
) {
    if arguments.len() < 3 || arguments[0] != "-C"@ || arguments[1] != source {
        (t, failed())
    } else if arguments[2] == "init"@ {
        (SourceTree { is_repository: true, ..t }, quiet())
    } else if !t.is_repository {
        (t, failed())
    } else if arguments[2] == "branch"@ {
        (t, quiet())
    } else if arguments[2] == "add"@ && arguments.contains("-A"@) {
        (SourceTree { staged: t.has_files, ..t }, quiet())
    } else if arguments[2] == "status"@ {
        if t.staged {
            (t, CommandView::Printed { stdout: "A file"@ })
        } else {
            (t, quiet())
        }
    } else if arguments.contains("commit"@) && arguments[arguments.len() - 2] == "-m"@ {
        if t.staged {
            (SourceTree { staged: false, commits: t.commits.push(arguments.last()), ..t }, quiet())
        } else {
            (t, failed())
        }
    } else if arguments[2] == "rev-parse"@ && arguments.last() == "HEAD"@ && t.commits.len() > 0 {
        (t, CommandView::Printed { stdout: head.push('\n') })
    } else {
        (t, failed())
    }
}

/// What becomes of a source tree when making its base commit goes on after some answers, and
/// the commit that is told; nothing where that fails or takes more than `commands` commands.
pub open spec fn committed(
    t: SourceTree,
    source: Text,
    message: Text,
    head: Text,
    answers: Seq<CommandView>,
    commands: nat,
) -> (SourceTree, Option<Text>)
    decreases commands,
{
    match git::init_next(source, message, answers) {
        Err(_) => (t, None),
        Ok(InitView::Done { commit }) => (t, Some(commit)),
        Ok(InitView::Run { arguments }) => if commands == 0 {
            (t, None)
        } else {
            let (next, answer) = git_does(t, source, head, arguments);
            committed(next, source, message, head, answers.push(answer), (commands - 1) as nat)
        },
    }
}

proof fn lemma_git_words()
    ensures
        "init"@ != "branch"@ && "init"@ != "add"@ && "init"@ != "status"@ && "init"@ != "-c"@
            && "init"@ != "rev-parse"@,
        "branch"@ != "add"@ && "branch"@ != "status"@ && "branch"@ != "-c"@ && "branch"@
            != "rev-parse"@,
        "add"@ != "status"@ && "add"@ != "-c"@ && "add"@ != "rev-parse"@,
        "status"@ != "-c"@ && "status"@ != "rev-parse"@,
        "rev-parse"@ != "commit"@ && "HEAD"@ != "commit"@ && "-C"@ != "commit"@,
        "rev-parse"@ != "-m"@,
{
    reveal_strlit("init");
    reveal_strlit("branch");
    reveal_strlit("add");
    reveal_strlit("status");
    reveal_strlit("rev-parse");
    reveal_strlit("-c");
    reveal_strlit("-C");
    reveal_strlit("-m");
    reveal_strlit("commit");
    reveal_strlit("HEAD");
    assert("init"@.len() == 4 && "branch"@.len() == 6 && "add"@.len() == 3 && "status"@.len() == 6);
    assert("branch"@[0] == 'b' && "status"@[0] == 's');
    assert("-c"@.len() == 2 && "-C"@.len() == 2 && "-m"@.len() == 2 && "rev-parse"@.len() == 9);
    assert("commit"@.len() == 6 && "HEAD"@.len() == 4);
}

/// Making the base commit of a source tree with files commits them all, once, under the given
/// message, and tells the hash of that commit. A tree without files is refused, and nothing
/// is committed.
pub proof fn base_commits_hold_the_source(
    t: SourceTree,
    source: Text,
    message: Text,
    head: Text,
)
    requires
        !t.is_repository,
        !t.staged,
        t.commits.len() == 0,
        head.len() > 0,
        !text::is_white_space(head[0]),
        !text::is_white_space(head.last()),
    ensures
        ({
            let (end, told) = committed(t, source, message, head, Seq::empty(), 6);
            &&& t.has_files ==> end.commits == seq![message] && told == Some(head)
            &&& !t.has_files ==> end.commits.len() == 0 && told is None
        }),
{
    lemma_git_words();
    reveal_strlit("A file");
    let t1 = SourceTree { is_repository: true, ..t };
    let t2 = SourceTree { staged: t.has_files, ..t1 };
    let t3 = SourceTree { staged: false, commits: t2.commits.push(message), ..t2 };
    let a0 = Seq::<CommandView>::empty();
    let a1 = a0.push(quiet());
    let a2 = a1.push(quiet());
    let a3 = a2.push(quiet());
    let shown = CommandView::Printed { stdout: "A file"@ };
    let a4 = a3.push(if t.has_files {
        shown
    } else {
        quiet()
    });
    let a5 = a4.push(quiet());
    let a6 = a5.push(CommandView::Printed { stdout: head.push('\n') });
    let add = git::git_arguments(source, seq!["add"@, "-A"@]);
    assert(add[3] == "-A"@);
    let commit = git::commit_arguments(source, message);
    assert(commit[8] == "commit"@);
    assert(commit[10] == "-m"@ && commit.last() == message && commit.len() == 12);
    let ask = git::head_arguments(source);
    assert(ask[2] == "rev-parse"@ && ask[3] == "HEAD"@ && ask.len() == 4);
    assert(committed(t, source, message, head, a0, 6) == committed(
        t1,
        source,
        message,
        head,
        a1,
        5,
    ));
    assert(committed(t1, source, message, head, a1, 5) == committed(
        t1,
        source,
        message,
        head,
        a2,
        4,
    ));
    assert(committed(t1, source, message, head, a2, 4) == committed(
        t2,
        source,
        message,
        head,
        a3,
        3,
    ));
    assert(committed(t2, source, message, head, a3, 3) == committed(
        t2,
        source,
        message,
        head,
        a4,
        2,
    ));
    if t.has_files {
        lemma_stripped(shown->stdout);
        assert(committed(t2, source, message, head, a4, 2) == committed(
            t3,
            source,
            message,
            head,
            a5,
            1,
        ));
        assert(git_does(t3, source, head, ask).1 == (CommandView::Printed {
            stdout: head.push('\n'),
        })) by {
            if source != "commit"@ {
                assert(!ask.contains("commit"@));
            }
            assert(ask[ask.len() - 2] == "rev-parse"@);
        }
        assert(committed(t3, source, message, head, a5, 1) == committed(
            t3,
            source,
            message,
            head,
            a6,
            0,
        ));
        lemma_stripped_line(head);
    } else {
        assert(text::stripped(quiet()->stdout) =~= Seq::empty());
    }
}

proof fn lemma_stripped(s: Text)
    requires
        s == "A file"@,
    ensures
        text::stripped(s).len() > 0,
{
    reveal_strlit("A file");
    assert(s.last() == 'e');
    assert(s.len() == 6);
}

proof fn lemma_stripped_line(head: Text)
    requires
        head.len() > 0,
        !text::is_white_space(head[0]),
        !text::is_white_space(head.last()),
    ensures
        text::stripped(head.push('\n')) == head,
{
    let line = head.push('\n');
    assert(line[0] == head[0]);
    assert(line.last() == '\n');
    assert(line.drop_last() =~= head);
    assert(text::trimmed_end(head, text::CharClass::Whitespace) == head);
}

/// A step of making the base commit that fails ends it; what Git said is told.
pub proof fn failed_commands_end_the_base_commit(
    source: Text,
    message: Text,
    answers: Seq<CommandView>,
)
    requires
        answers.len() > 0,
        answers.last() is Exited || answers.last() is NotExecuted,
    ensures
        git::init_next(source, message, answers) is Err,
{
}

// ---- Copying the source

/// Links are copied as links, directories are gone into, files are copied with the owner's
/// rights to read and write added, and anything else is refused.
pub proof fn entries_are_copied_as_what_they_are(path: Text, mode: u32)
    ensures
        workspace::copy_step_of(path, workspace::SourceEntry::Symlink, mode) == Ok::<
            workspace::CopyStep,
            Text,
        >(workspace::CopyStep::Link),
        workspace::copy_step_of(path, workspace::SourceEntry::Directory, mode) == Ok::<
            workspace::CopyStep,
            Text,
        >(workspace::CopyStep::Descend),
        workspace::copy_step_of(path, workspace::SourceEntry::File, mode) matches Ok(
            workspace::CopyStep::Contents { mode: given },
        ) && given & 0o600 == 0o600 && given & !0o600u32 == mode & !0o600u32,
        workspace::copy_step_of(path, workspace::SourceEntry::Other, mode) is Err,
{
    workspace::copies_are_writable(mode);
}

// ---- Which fork a command is about

/// A command with a label is about the fork of that name and label, whatever else the name
/// may lead to; a label alone is refused.
pub proof fn labels_select_by_name(
    env: EnvironmentView,
    name: Text,
    label: Text,
    start: workspace::StartView,
    snapshot: Snapshot,
)
    ensures
        workspace::selected_workspace(env, None, Some(label), start, snapshot) is Err,
        workspace::selected_workspace(env, Some(name), Some(label), start, snapshot) matches Ok(
            found,
        ) ==> snapshot.has_file(found.metadata) && (found.root
            == workspace::labeled_workspace_of(env, name, label) || workspace::sanitized(label)
            == "default"@ && found.root == workspace::managed_workspace_of(env, name)),
        snapshot.has_file(
            crate::paths::joined(
                workspace::labeled_workspace_of(env, name, label),
                "forkpkg.toml"@,
            ),
        ) ==> workspace::selected_workspace(env, Some(name), Some(label), start, snapshot) == Ok::<
            WorkspaceView,
            Text,
        >(workspace::workspace_at(workspace::labeled_workspace_of(env, name, label))),
{
    workspace::sanitizing_twice_is_once(label);
}

/// The managed forks are exactly the directories that hold metadata.
pub proof fn managed_forks_hold_metadata(dirs: Seq<Text>, snapshot: Snapshot, w: WorkspaceView)
    ensures
        workspace::workspaces_in(dirs, snapshot).contains(w) == (exists|i: int|
            0 <= i < dirs.len() && w == workspace::workspace_at(#[trigger] dirs[i])
                && snapshot.has_file(crate::paths::joined(dirs[i], "forkpkg.toml"@))),
    decreases dirs.len(),
{
    let all = workspace::workspaces_in(dirs, snapshot);
    if dirs.len() > 0 {
        let front = dirs.drop_last();
        managed_forks_hold_metadata(front, snapshot, w);
        let before = workspace::workspaces_in(front, snapshot);
        if before.contains(w) {
            let i = choose|i: int|
                0 <= i < front.len() && w == workspace::workspace_at(#[trigger] front[i])
                    && snapshot.has_file(crate::paths::joined(front[i], "forkpkg.toml"@));
            assert(dirs[i] == front[i]);
            let k = choose|k: int| 0 <= k < before.len() && before[k] == w;
            assert(all[k] == w);
        }
        assert(dirs[dirs.len() - 1] == dirs.last());
        if snapshot.has_file(crate::paths::joined(dirs.last(), "forkpkg.toml"@)) {
            assert(all.last() == workspace::workspace_at(dirs.last()));
            assert(all[all.len() - 1] == all.last());
        }
        if all.contains(w) && !before.contains(w) {
            let k = choose|k: int| 0 <= k < all.len() && all[k] == w;
            if k < before.len() {
                assert(before[k] == w);
            }
        }
        if exists|i: int|
            0 <= i < dirs.len() && w == workspace::workspace_at(#[trigger] dirs[i])
                && snapshot.has_file(crate::paths::joined(dirs[i], "forkpkg.toml"@)) {
            let i = choose|i: int|
                0 <= i < dirs.len() && w == workspace::workspace_at(#[trigger] dirs[i])
                    && snapshot.has_file(crate::paths::joined(dirs[i], "forkpkg.toml"@));
            if i < front.len() {
                assert(front[i] == dirs[i]);
            }
        }
    } else {
        assert(all =~= Seq::empty());
    }
}

// ---- Names

proof fn lemma_collapsed_letters(front: Text, word: Text)
    requires
        forall|i: int| 0 <= i < word.len() ==> text::is_ascii_alphanumeric(#[trigger] word[i]),
    ensures
        workspace::collapsed(front + word) == workspace::collapsed(front) + word,
    decreases word.len(),
{
    if word.len() == 0 {
        assert(front + word =~= front);
        assert(workspace::collapsed(front) + word =~= workspace::collapsed(front));
    } else {
        let w = word.drop_last();
        assert forall|i: int| 0 <= i < w.len() implies text::is_ascii_alphanumeric(
            #[trigger] w[i],
        ) by {
            assert(w[i] == word[i]);
        }
        lemma_collapsed_letters(front, w);
        assert((front + word).drop_last() =~= front + w);
        assert((front + word).last() == word.last());
        assert(word[word.len() - 1] == word.last());
        assert(workspace::collapsed(front) + word =~= (workspace::collapsed(front) + w).push(
            word.last(),
        ));
    }
}

/// A name of letters and digits stays as it is, and anything else between two such names
/// becomes a single dash.
#[verifier::rlimit(40)]
#[verifier::spinoff_prover]
pub proof fn names_are_joined_by_dashes(a: Text, b: Text, c: char)
    requires
        a.len() > 0,
        b.len() > 0,
        forall|i: int| 0 <= i < a.len() ==> text::is_ascii_alphanumeric(#[trigger] a[i]),
        forall|i: int| 0 <= i < b.len() ==> text::is_ascii_alphanumeric(#[trigger] b[i]),
        !text::is_ascii_alphanumeric(c),
        c != '.',
        c != '_',
    ensures
        workspace::sanitized(a) == a,
        workspace::sanitized(a + seq![c] + b) == a + seq!['-'] + b,
        workspace::sanitized(a + seq![c, c] + b) == a + seq!['-'] + b,
        workspace::sanitized(seq![c] + a + seq![c]) == a,
{
    let none = Seq::<char>::empty();
    lemma_collapsed_letters(none, a);
    assert(none + a =~= a);
    assert(workspace::collapsed(none) + a =~= a);
    assert(a[0] == a.first() && a[a.len() - 1] == a.last());
    assert(text::trimmed(a, text::CharClass::NameEdge) == a);
    let ac = a + seq![c];
    assert(ac.drop_last() =~= a);
    let dashed = a.push('-');
    assert(workspace::collapsed(ac) == dashed);
    lemma_collapsed_letters(ac, b);
    let whole = dashed + b;
    assert(whole =~= a + seq!['-'] + b);
    assert(whole[0] == a[0]);
    assert(b[b.len() - 1] == b.last());
    assert(whole.last() == b.last());
    assert(text::trimmed(whole, text::CharClass::NameEdge) == whole);
    let acc = a + seq![c, c];
    assert(acc.drop_last() =~= ac);
    assert(workspace::collapsed(acc) == dashed);
    lemma_collapsed_letters(acc, b);
    let one = seq![c];
    assert(one.drop_last() =~= none);
    assert(workspace::collapsed(none) =~= none);
    assert(workspace::collapsed(one) =~= seq!['-']);
    lemma_collapsed_letters(one, a);
    let ca = seq!['-'] + a;
    let cac = seq![c] + a + seq![c];
    assert(cac.drop_last() =~= seq![c] + a);
    assert(ca.last() == a.last());
    let end = ca.push('-');
    assert(workspace::collapsed(cac) == end);
    assert(end.drop_first() =~= a.push('-'));
    assert(text::trimmed_start(a.push('-'), text::CharClass::NameEdge) == a.push('-'));
    assert(text::trimmed_start(end, text::CharClass::NameEdge) == a.push('-'));
    assert(a.push('-').drop_last() =~= a);
    assert(text::trimmed_end(a, text::CharClass::NameEdge) == a);
    assert(text::trimmed_end(a.push('-'), text::CharClass::NameEdge) == a);
}

// ---- Which fork is made

/// A fork is made under its package's name where it has a label, unless a workspace from
/// before labels stands there; that is moved first where it is not active and the new label
/// is not the one that it gets.
pub proof fn forks_are_made_beside_others(
    requested: Option<Text>,
    name: Text,
    existing_count: nat,
    legacy: forking::LegacyView,
)
    ensures
        (forking::fork_plan(requested, name, existing_count, legacy) is Ok) == ((requested is Some
            || existing_count == 0) && (legacy is Absent || (legacy is Inactive && requested is Some
            && workspace::sanitized(requested->0) != "default"@))),
        forking::fork_plan(requested, name, existing_count, legacy) matches Ok(plan) ==> {
            &&& plan.name == name
            &&& requested is None ==> plan.label == "default"@
            &&& requested matches Some(label) ==> plan.label == workspace::sanitized(label)
            &&& plan.migrate == !(legacy is Absent)
        },
{
}

/// A search begins at a directory itself, and for a file in the directory that holds it.
pub proof fn searches_begin_in_a_directory(dir: Text, name: Text)
    requires
        crate::paths::is_tidy(dir),
        crate::paths::is_entry_name(name),
        name != seq!['.', '.'],
    ensures
        workspace::search_start_of(dir, false) == Ok::<Text, Text>(dir),
        workspace::search_start_of(crate::paths::joined(dir, name), true) == Ok::<Text, Text>(dir),
{
    crate::paths::the_parent_of_an_entry_is_its_directory(dir, name);
}

} // verus!
