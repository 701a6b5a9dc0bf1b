//! Where planned activations put things: apart from each other, and where a machine can
//! have them.
use vstd::prelude::*;

use crate::activation::keys::{self, PathsView};
use crate::activation::plan::{self, Surroundings};
use crate::activation::preflight;
use crate::activation::records::{EntryView, LinkView, PreviousView, RecordView, ServiceView};
use crate::activation::scripts;
use crate::activation::store::{self, RecordTree};
use crate::activation::world::{self, Node, World};
use crate::directory::{self, DirEntryView, DirRead};
use crate::metadata::MetadataView;
use crate::order;
use crate::paths;
use crate::snapshot::{LinkReadView, Snapshot};
use crate::text::{self, Text};
use crate::workspace::{self, EnvironmentView, WorkspaceView};

verus! {

// ---- The names in a directory

/// Whether no two of the paths end in the same name.
pub open spec fn names_differ(all: Seq<Text>) -> bool {
    forall|i: int, j: int|
        0 <= i < j < all.len() ==> paths::last_name(#[trigger] all[i]) != paths::last_name(
            #[trigger] all[j],
        )
}

/// Whether a directory lists each name once, as directories do.
pub open spec fn lists_each_name_once(read: Result<Seq<Result<DirEntryView, Text>>, Text>) -> bool {
    match read {
        Err(_) => true,
        Ok(entries) => forall|i: int, j: int|
            0 <= i < j < entries.len() && (#[trigger] entries[i]) is Ok && (
            #[trigger] entries[j]) is Ok ==> paths::last_name(entries[i]->Ok_0.path)
                != paths::last_name(entries[j]->Ok_0.path),
    }
}

proof fn lemma_executables_differ(dir: Text, entries: Seq<Result<DirEntryView, Text>>)
    requires
        lists_each_name_once(Ok(entries)),
        directory::executables(dir, entries) is Ok,
    ensures
        names_differ(directory::executables(dir, entries)->Ok_0),
        forall|k: int|
            0 <= k < directory::executables(dir, entries)->Ok_0.len() ==> exists|i: int|
                0 <= i < entries.len() && (#[trigger] entries[i]) is Ok && entries[i]->Ok_0.path
                    == #[trigger] directory::executables(dir, entries)->Ok_0[k],
    decreases entries.len(),
{
    if entries.len() > 0 {
        let front = entries.drop_last();
        assert forall|i: int, j: int|
            0 <= i < j < front.len() && (#[trigger] front[i]) is Ok && (
            #[trigger] front[j]) is Ok implies paths::last_name(front[i]->Ok_0.path)
            != paths::last_name(front[j]->Ok_0.path) by {
            assert(front[i] == entries[i] && front[j] == entries[j]);
        }
        lemma_executables_differ(dir, front);
        let before = directory::executables(dir, front)->Ok_0;
        let found = directory::executables(dir, entries)->Ok_0;
        let last = entries.len() - 1;
        assert forall|k: int| 0 <= k < found.len() implies exists|i: int|
            0 <= i < entries.len() && (#[trigger] entries[i]) is Ok && entries[i]->Ok_0.path
                == #[trigger] found[k] by {
            if k < before.len() {
                assert(found[k] == before[k]);
                let i = choose|i: int|
                    0 <= i < front.len() && (#[trigger] front[i]) is Ok && front[i]->Ok_0.path
                        == before[k];
                assert(entries[i] == front[i]);
            } else {
                assert(entries[last] == entries.last());
            }
        }
        assert forall|j: int, k: int| 0 <= j < k < found.len() implies paths::last_name(
            #[trigger] found[j],
        ) != paths::last_name(#[trigger] found[k]) by {
            assert(found[j] == before[j]);
            if k < before.len() {
                assert(found[k] == before[k]);
            } else {
                let i = choose|i: int|
                    0 <= i < front.len() && (#[trigger] front[i]) is Ok && front[i]->Ok_0.path
                        == before[j];
                assert(entries[i] == front[i]);
                assert(entries[last] == entries.last());
            }
        }
    }
}

proof fn lemma_sorted_differ(all: Seq<Text>)
    requires
        names_differ(all),
    ensures
        names_differ(order::sorted::<String>(all)),
{
    broadcast use vstd::seq_lib::group_to_multiset_ensures;

    let s = order::sorted::<String>(all);
    order::sorting_orders_and_keeps::<String>(all);
    assert forall|i: int, j: int| 0 <= i < j < all.len() implies all[i] != all[j] by {
        assert(paths::last_name(all[i]) != paths::last_name(all[j]));
    }
    assert(all.no_duplicates());
    all.lemma_multiset_has_no_duplicates();
    s.lemma_multiset_has_no_duplicates_conv();
    assert forall|i: int, j: int| 0 <= i < j < s.len() implies paths::last_name(#[trigger] s[i])
        != paths::last_name(#[trigger] s[j]) by {
        assert(s.contains(s[i]) && s.contains(s[j]));
        assert(s.to_multiset().count(s[i]) > 0 && s.to_multiset().count(s[j]) > 0);
        assert(all.contains(s[i]) && all.contains(s[j]));
        let a = choose|a: int| 0 <= a < all.len() && all[a] == s[i];
        let b = choose|b: int| 0 <= b < all.len() && all[b] == s[j];
        assert(s[i] != s[j]);
        if a < b {
            assert(paths::last_name(all[a]) != paths::last_name(all[b]));
        } else {
            assert(paths::last_name(all[b]) != paths::last_name(all[a]));
        }
    }
}

// ---- Links

/// Where the backups of an activation are kept.
pub open spec fn backups_dir(p: PathsView, key: Text) -> Text {
    paths::joined(p.activation_dir(key), "backups"@)
}

/// Whether a link is where a plan puts the one for a name.
pub open spec fn is_placed(link: LinkView, name: Text, key: Text, p: PathsView) -> bool {
    &&& link.link == paths::joined(p.user_bin_dir, name)
    &&& match link.previous {
        PreviousView::Absent => true,
        PreviousView::BackedUp { backup } => backup == paths::joined(backups_dir(p, key), name),
    }
}

proof fn lemma_links_placed(
    targets: Seq<Text>,
    key: Text,
    p: PathsView,
    active: Seq<EntryView>,
    snapshot: Snapshot,
)
    requires
        plan::links_plan(targets, key, p, active, snapshot) is Ok,
    ensures
        plan::links_plan(targets, key, p, active, snapshot)->Ok_0.len() == targets.len(),
        forall|i: int|
            0 <= i < targets.len() ==> paths::last_name(#[trigger] targets[i]) is Some
                && is_placed(
                plan::links_plan(targets, key, p, active, snapshot)->Ok_0[i],
                paths::last_name(targets[i])->0,
                key,
                p,
            ),
    decreases targets.len(),
{
    if targets.len() > 0 {
        let front = targets.drop_last();
        lemma_links_placed(front, key, p, active, snapshot);
        let before = plan::links_plan(front, key, p, active, snapshot)->Ok_0;
        let links = plan::links_plan(targets, key, p, active, snapshot)->Ok_0;
        assert forall|i: int| 0 <= i < targets.len() implies paths::last_name(
            #[trigger] targets[i],
        ) is Some && is_placed(links[i], paths::last_name(targets[i])->0, key, p) by {
            if i < front.len() {
                assert(front[i] == targets[i]);
                assert(links[i] == before[i]);
            } else {
                assert(targets[i] == targets.last());
            }
        }
    }
}

/// Whether the directory of links is neither an activation's own directory nor the one of
/// its backups.
pub open spec fn dirs_apart(p: PathsView, key: Text) -> bool {
    &&& world::place(p.user_bin_dir) != world::place(p.activation_dir(key))
    &&& world::place(p.user_bin_dir) != world::place(backups_dir(p, key))
}

proof fn lemma_ends(a: Seq<Text>, x: Text, b: Seq<Text>, y: Text)
    ensures
        a.push(x) == b.push(y) ==> a == b && x == y,
{
    if a.push(x) == b.push(y) {
        assert(a.push(x).drop_last() =~= a);
        assert(b.push(y).drop_last() =~= b);
        assert(a.push(x).last() == x && b.push(y).last() == y);
    }
}

proof fn lemma_own_names()
    ensures
        paths::is_entry_name("backups"@),
        paths::is_entry_name("activation.toml"@),
        paths::is_entry_name("forkpkg.conf"@),
        paths::is_entry_name("bin"@),
        paths::is_entry_name(".local"@),
        "bin"@ != "backups"@,
        "forkpkg.conf"@ != "activation.toml"@,
{
    reveal_strlit("backups");
    reveal_strlit("activation.toml");
    reveal_strlit("forkpkg.conf");
    reveal_strlit("bin");
    reveal_strlit(".local");
    assert(".local"@.len() == 6);
    assert("bin"@.len() == 3 && "backups"@.len() == 7);
    assert("forkpkg.conf"@.len() == 12 && "activation.toml"@.len() == 15);
    assert(seq!['.'].len() == 1);
}

/// Whether no link of a record is where the record itself is kept.
pub open spec fn links_spare_the_record(record: RecordView, p: PathsView) -> bool {
    forall|i: int|
        0 <= i < record.links.len() ==> world::place((#[trigger] record.links[i]).link)
            != world::place(p.record_path(record.key))
}

proof fn lemma_links_laid_apart(
    links: Seq<LinkView>,
    targets: Seq<Text>,
    key: Text,
    p: PathsView,
)
    requires
        forall|i: int|
            0 <= i < links.len() ==> world::place((#[trigger] links[i]).link) != world::place(
                p.record_path(key),
            ),
        forall|i: int|
            0 <= i < links.len() && (#[trigger] links[i]).previous is BackedUp ==> world::place(
                p.user_bin_dir,
            ) != world::place(backups_dir(p, key)),
        names_differ(targets),
        links.len() == targets.len(),
        forall|i: int|
            0 <= i < targets.len() ==> paths::last_name(#[trigger] targets[i]) is Some
                && is_placed(links[i], paths::last_name(targets[i])->0, key, p),
    ensures
        world::links_apart(links),
        forall|i: int|
            0 <= i < links.len() ==> world::stands_apart(#[trigger] links[i], p.record_path(key)),
        forall|i: int|
            0 <= i < links.len() ==> paths::parent(#[trigger] links[i].link) is Some,
{
    let bin = paths::components(p.user_bin_dir);
    let own = paths::components(p.activation_dir(key));
    let kept = paths::components(backups_dir(p, key));
    lemma_own_names();
    paths::lemma_joined_name(p.activation_dir(key), "backups"@);
    paths::lemma_joined_name(p.activation_dir(key), "activation.toml"@);
    assert forall|i: int| 0 <= i < links.len() implies {
        let name = paths::last_name(targets[i])->0;
        &&& world::place((#[trigger] links[i]).link) == bin.push(name)
        &&& links[i].previous matches PreviousView::BackedUp { backup } ==> world::place(backup)
            == kept.push(name)
        &&& paths::parent(links[i].link) is Some
    } by {
        let name = paths::last_name(targets[i])->0;
        assert(is_placed(links[i], name, key, p));
        paths::lemma_last_name(targets[i]);
        paths::lemma_joined_name(p.user_bin_dir, name);
        paths::lemma_joined_name(backups_dir(p, key), name);
    }
    assert forall|i: int| 0 <= i < links.len() implies {
        &&& world::whole(#[trigger] links[i])
        &&& world::stands_apart(links[i], p.record_path(key))
    } by {
        let name = paths::last_name(targets[i])->0;
        lemma_ends(bin, name, kept, name);
        lemma_ends(kept, name, own, "activation.toml"@);
        assert(kept.len() == own.len() + 1);
    }
    assert forall|i: int, j: int| 0 <= i < j < links.len() implies world::apart(
        #[trigger] links[i],
        #[trigger] links[j],
    ) by {
        let a = paths::last_name(targets[i])->0;
        let b = paths::last_name(targets[j])->0;
        assert(paths::last_name(targets[i]) != paths::last_name(targets[j]));
        lemma_ends(bin, a, bin, b);
        lemma_ends(bin, a, kept, b);
        lemma_ends(kept, a, bin, b);
        lemma_ends(kept, a, kept, b);
    }
}

/// Everything that a planned link activation speaks of is in a place of its own, and every
/// link is in a directory. This asks of the build output that its directory lists each name
/// once, and of the paths that links go to neither the activation's directory nor its
/// backups.
pub proof fn planned_links_are_laid_apart(
    m: MetadataView,
    workspace: WorkspaceView,
    build_output: Text,
    bin: DirRead,
    active: Option<RecordTree>,
    around: Surroundings,
)
    requires
        lists_each_name_once(bin.deep_view()),
        dirs_apart(around.view_paths(), keys::fork_key_of(m)),
    ensures
        plan::shim_plan(m, workspace, build_output, bin, active, around) matches Ok(record) ==> {
            &&& record.key == keys::fork_key_of(m)
            &&& record.services.len() == 0 && record.profiles.len() == 0 && record.modules.len()
                == 0
            &&& world::laid_apart(record, around.view_paths())
            &&& forall|i: int|
                0 <= i < record.links.len() ==> paths::parent(#[trigger] record.links[i].link)
                    is Some
        },
{
    let p = around.view_paths();
    let key = keys::fork_key_of(m);
    let bin_dir = paths::joined(build_output, "bin"@);
    if let Ok(record) = plan::shim_plan(m, workspace, build_output, bin, active, around) {
        let targets = directory::executables_in(bin_dir, bin.deep_view())->Ok_0;
        let others = store::entries_in(p, active)->Ok_0;
        let entries = bin.deep_view()->Ok_0;
        lemma_executables_differ(bin_dir, entries);
        lemma_sorted_differ(directory::executables(bin_dir, entries)->Ok_0);
        lemma_links_placed(targets, key, p, others, around.snapshot);
        assert forall|i: int| 0 <= i < record.links.len() implies world::place(
            (#[trigger] record.links[i]).link,
        ) != world::place(p.record_path(key)) by {
            let name = paths::last_name(targets[i])->0;
            lemma_own_names();
            assert(is_placed(record.links[i], name, key, p));
            paths::lemma_last_name(targets[i]);
            paths::lemma_joined_name(p.user_bin_dir, name);
            paths::lemma_joined_name(p.activation_dir(key), "activation.toml"@);
            lemma_ends(
                paths::components(p.user_bin_dir),
                name,
                paths::components(p.activation_dir(key)),
                "activation.toml"@,
            );
        }
        lemma_links_laid_apart(record.links, targets, key, p);
    }
}

/// A planned link activation that may begin on a machine is laid apart there, unless a link
/// is where the record is kept: what a link displaces is moved elsewhere, as its backup has
/// to be free.
pub proof fn links_that_may_begin_are_laid_apart(
    m: MetadataView,
    workspace: WorkspaceView,
    build_output: Text,
    bin: DirRead,
    active: Option<RecordTree>,
    around: Surroundings,
    snapshot: Snapshot,
    contents: Text,
    stamp: Text,
    w: World,
)
    requires
        lists_each_name_once(bin.deep_view()),
    ensures
        plan::shim_plan(m, workspace, build_output, bin, active, around) matches Ok(record) ==> {
            let p = around.view_paths();
            links_spare_the_record(record, p) && world::agrees(record, snapshot, w)
                && scripts::enabling(record, p, snapshot, contents, stamp) is Ok ==> {
                &&& record.key == keys::fork_key_of(m)
                &&& record.services.len() == 0 && record.profiles.len() == 0
                    && record.modules.len() == 0
                &&& world::laid_apart(record, p)
                &&& forall|i: int|
                    0 <= i < record.links.len() ==> paths::parent(#[trigger] record.links[i].link)
                        is Some
            }
        },
{
    let p = around.view_paths();
    let key = keys::fork_key_of(m);
    let bin_dir = paths::joined(build_output, "bin"@);
    if let Ok(record) = plan::shim_plan(m, workspace, build_output, bin, active, around) {
        if links_spare_the_record(record, p) && world::agrees(record, snapshot, w)
            && scripts::enabling(record, p, snapshot, contents, stamp) is Ok {
            let targets = directory::executables_in(bin_dir, bin.deep_view())->Ok_0;
            let others = store::entries_in(p, active)->Ok_0;
            let entries = bin.deep_view()->Ok_0;
            lemma_executables_differ(bin_dir, entries);
            lemma_sorted_differ(directory::executables(bin_dir, entries)->Ok_0);
            lemma_links_placed(targets, key, p, others, around.snapshot);
            world::lemma_enable_preflight(record, p, snapshot, w);
            assert forall|i: int|
                0 <= i < record.links.len() && (#[trigger] record.links[i]).previous
                    is BackedUp implies world::place(p.user_bin_dir) != world::place(
                backups_dir(p, key),
            ) by {
                let name = paths::last_name(targets[i])->0;
                let link = record.links[i];
                assert(is_placed(link, name, key, p));
                paths::lemma_last_name(targets[i]);
                paths::lemma_joined_name(p.user_bin_dir, name);
                paths::lemma_joined_name(backups_dir(p, key), name);
                assert(world::link_ready(link, w));
            }
            lemma_links_laid_apart(record.links, targets, key, p);
        }
    }
}

/// What a planned service activation speaks of is in places of its own, too, and the
/// override is in a directory.
pub proof fn planned_services_are_laid_apart(
    m: MetadataView,
    workspace: WorkspaceView,
    build_output: Text,
    service: Text,
    service_file: Text,
    exec_start: Text,
    target: Text,
    around: Surroundings,
)
    ensures
        plan::service_plan(
            m,
            workspace,
            build_output,
            service,
            service_file,
            exec_start,
            target,
            around,
        ) matches Ok(record) ==> {
            &&& record.key == keys::fork_key_of(m)
            &&& record.links.len() == 0 && record.profiles.len() == 0 && record.modules.len() == 0
            &&& world::laid_apart(record, around.view_paths())
            &&& world::services_ready(record.services)
        },
{
    let p = around.view_paths();
    let key = keys::fork_key_of(m);
    let dir = paths::joined(
        paths::joined(paths::joined(p.user_config_dir, "systemd"@), "user"@),
        service + ".d"@,
    );
    lemma_own_names();
    paths::lemma_joined_name(dir, "forkpkg.conf"@);
    paths::lemma_joined_name(p.activation_dir(key), "activation.toml"@);
    lemma_ends(
        paths::components(dir),
        "forkpkg.conf"@,
        paths::components(p.activation_dir(key)),
        "activation.toml"@,
    );
}

/// The directory of a fork's activation is named after the label, in one named after the
/// package.
proof fn lemma_key_components(p: PathsView, m: MetadataView)
    requires
        p.activations_dir.len() > 0,
        !keys::package_key_of(m).contains('/'),
    ensures
        paths::components(p.activation_dir(keys::fork_key_of(m))) == paths::components(
            p.activations_dir,
        ) + seq![keys::package_key_of(m), workspace::sanitized(m.fork.label)],
{
    let package = keys::package_key_of(m);
    let label = workspace::sanitized(m.fork.label);
    let key = keys::fork_key_of(m);
    let named = workspace::sanitized(keys::display_name_of(m));
    workspace::sanitized_names_are_plain(keys::display_name_of(m));
    workspace::sanitized_names_are_plain(m.fork.label);
    reveal_strlit("/");
    reveal_strlit("-");
    assert(package.len() > 1);
    assert(seq!['.'].len() == 1);
    assert(key =~= package.push('/') + label);
    assert(key[0] == package[0]);
    if paths::absolute(key) {
        assert(package.contains(package[0]));
    }
    text::lemma_pieces_joined(package, label, '/');
    paths::lemma_entry_name_pieces(package);
    paths::lemma_entry_name_pieces(label);
    let pieces = text::pieces(key, '/');
    assert(pieces =~= seq![package, label]);
    assert(pieces.drop_last() =~= seq![package]);
    assert(paths::names(pieces) =~= seq![package, label]);
    paths::lemma_joined_components(p.activations_dir, key);
}

/// The paths of an environment keep links apart from backups, and from the activation's own
/// directory: that one is named after the fork's label, in a directory named after the
/// package, whose key is a single name.
pub proof fn directories_of_an_environment_are_apart(env: EnvironmentView, m: MetadataView)
    requires
        keys::paths_from(env) is Ok,
        !keys::package_key_of(m).contains('/'),
    ensures
        dirs_apart(keys::paths_from(env)->Ok_0, keys::fork_key_of(m)),
{
    let p = keys::paths_from(env)->Ok_0;
    let key = keys::fork_key_of(m);
    let home = keys::required_home(env)->Ok_0;
    let local = paths::joined(home, ".local"@);
    let bin = paths::components(p.user_bin_dir);
    let own = paths::components(p.activation_dir(key));
    lemma_own_names();
    paths::lemma_joined_name(home, ".local"@);
    paths::lemma_joined_name(local, "bin"@);
    paths::lemma_joined_name(p.activation_dir(key), "backups"@);
    lemma_ends(paths::components(local), "bin"@, own, "backups"@);
    reveal_strlit("activations");
    assert(p.activations_dir.len() > 0);
    lemma_key_components(p, m);
    assert(bin[bin.len() - 2] == ".local"@);
    let package = keys::package_key_of(m);
    let dash = workspace::sanitized(keys::display_name_of(m)).len() as int;
    reveal_strlit("-");
    reveal_strlit(".local");
    assert(package[dash] == '-');
    if package == ".local"@ {
        assert(".local"@[dash] == '-');
    }
}

// ---- Machines

/// Whether a link, or the backup of what it displaced, is at a path.
pub open spec fn link_speaks_of(link: LinkView, path: Text) -> bool {
    link.link == path || link.previous == (PreviousView::BackedUp { backup: path })
}

/// Whether a record puts a link, a backup or an override at a path.
pub open spec fn speaks_of(record: RecordView, path: Text) -> bool {
    ||| exists|i: int|
        0 <= i < record.links.len() && link_speaks_of(#[trigger] record.links[i], path)
    ||| exists|i: int|
        0 <= i < record.services.len() && (#[trigger] record.services[i]).override_path == path
}

proof fn lemma_one_spelling(record: RecordView, p: PathsView, a: Text, b: Text)
    requires
        world::laid_apart(record, p),
        speaks_of(record, a),
        speaks_of(record, b),
        world::place(a) == world::place(b),
    ensures
        a == b,
        world::place(a) != world::place(p.record_path(record.key)),
{
    let links = record.links;
    let services = record.services;
    let own = p.record_path(record.key);
    if exists|i: int| 0 <= i < links.len() && link_speaks_of(#[trigger] links[i], a) {
        let i = choose|i: int| 0 <= i < links.len() && link_speaks_of(#[trigger] links[i], a);
        assert(world::stands_apart(links[i], own));
        if exists|j: int| 0 <= j < links.len() && link_speaks_of(#[trigger] links[j], b) {
            let j = choose|j: int| 0 <= j < links.len() && link_speaks_of(#[trigger] links[j], b);
            if i < j {
                assert(world::apart(links[i], links[j]));
            } else if j < i {
                assert(world::apart(links[j], links[i]));
            } else {
                assert(world::whole(links[i]));
            }
        } else {
            let j = choose|j: int|
                0 <= j < services.len() && (#[trigger] services[j]).override_path == b;
            assert(world::stands_apart(links[i], services[j].override_path));
        }
    } else {
        let i = choose|i: int|
            0 <= i < services.len() && (#[trigger] services[i]).override_path == a;
        assert(world::place(services[i].override_path) != world::place(own));
        if exists|j: int| 0 <= j < links.len() && link_speaks_of(#[trigger] links[j], b) {
            let j = choose|j: int| 0 <= j < links.len() && link_speaks_of(#[trigger] links[j], b);
            assert(world::stands_apart(links[j], services[i].override_path));
        } else {
            let j = choose|j: int|
                0 <= j < services.len() && (#[trigger] services[j]).override_path == b;
            if i < j {
                assert(world::place(services[i].override_path) != world::place(
                    services[j].override_path,
                ));
            } else if j < i {
                assert(world::place(services[j].override_path) != world::place(
                    services[i].override_path,
                ));
            }
        }
    }
}

/// The path that a record speaks of at a place.
pub open spec fn path_at(record: RecordView, at: Seq<Text>) -> Text {
    choose|path: Text| #[trigger] speaks_of(record, path) && world::place(path) == at
}

/// The machine that has, of what a record speaks of, what a snapshot tells of, and nothing
/// else.
pub open spec fn machine_told_by(record: RecordView, snapshot: Snapshot) -> World {
    World {
        files: Map::new(
            |at: Seq<Text>|
                exists|path: Text| #[trigger]
                    speaks_of(record, path) && world::place(path) == at && snapshot.has_entry(path)
                        == Ok::<bool, Text>(true),
            |at: Seq<Text>|
                match snapshot.at(path_at(record, at)).link {
                    LinkReadView::Target { path } => Node::Link { target: world::place(path) },
                    _ => Node::Other,
                },
        ),
        installed: Set::empty(),
    }
}

/// Whether a snapshot reads links only where it tells of an entry.
pub open spec fn links_are_entries(snapshot: Snapshot) -> bool {
    forall|path: Text|
        (#[trigger] snapshot.at(path)).link is Target ==> snapshot.has_entry(path) == Ok::<
            bool,
            Text,
        >(true)
}

proof fn lemma_told_at(record: RecordView, p: PathsView, snapshot: Snapshot, path: Text)
    requires
        world::laid_apart(record, p),
        links_are_entries(snapshot),
        speaks_of(record, path),
    ensures
        world::agrees_at(snapshot, machine_told_by(record, snapshot), path),
{
    let w = machine_told_by(record, snapshot);
    let at = world::place(path);
    assert(speaks_of(record, path_at(record, at)) && world::place(path_at(record, at)) == at);
    lemma_one_spelling(record, p, path, path_at(record, at));
    if w.has(path) {
        let other = choose|other: Text| #[trigger]
            speaks_of(record, other) && world::place(other) == at && snapshot.has_entry(other)
                == Ok::<bool, Text>(true);
        lemma_one_spelling(record, p, path, other);
    }
    assert(snapshot.at(path).link is Target ==> snapshot.has_entry(path) == Ok::<bool, Text>(
        true,
    ));
}

/// Whatever a snapshot tells of the places of a record, some machine is like that: one with
/// an entry in the way of a link, too.
pub proof fn every_snapshot_has_a_machine(record: RecordView, p: PathsView, snapshot: Snapshot)
    requires
        world::laid_apart(record, p),
        links_are_entries(snapshot),
    ensures
        world::agrees(record, snapshot, machine_told_by(record, snapshot)),
        !machine_told_by(record, snapshot).has(p.record_path(record.key)),
        forall|path: Text| #[trigger]
            speaks_of(record, path) && snapshot.has_entry(path) == Ok::<bool, Text>(true)
                ==> machine_told_by(record, snapshot).has(path),
{
    let w = machine_told_by(record, snapshot);
    let own = p.record_path(record.key);
    if w.has(own) {
        let path = choose|path: Text| #[trigger]
            speaks_of(record, path) && world::place(path) == world::place(own)
                && snapshot.has_entry(path) == Ok::<bool, Text>(true);
        lemma_one_spelling(record, p, path, path);
    }
    assert forall|i: int| 0 <= i < record.links.len() implies world::agrees_on_link(
        #[trigger] record.links[i],
        snapshot,
        w,
    ) by {
        let link = record.links[i];
        assert(speaks_of(record, link.link));
        lemma_told_at(record, p, snapshot, link.link);
        if let PreviousView::BackedUp { backup } = link.previous {
            assert(speaks_of(record, backup));
            lemma_told_at(record, p, snapshot, backup);
        }
    }
    assert forall|i: int| 0 <= i < record.services.len() implies world::agrees_at(
        snapshot,
        w,
        (#[trigger] record.services[i]).override_path,
    ) by {
        assert(speaks_of(record, record.services[i].override_path));
        lemma_told_at(record, p, snapshot, record.services[i].override_path);
    }
}

/// A machine with a file in the way of a link, a snapshot that tells of it, and the record
/// that moves the file aside meet everything that the laws on activations ask for.
pub proof fn a_displaced_file_is_covered(
    record: RecordView,
    p: PathsView,
    snapshot: Snapshot,
    contents: Text,
    stamp: Text,
    text: Text,
)
    requires
        record.links.len() == 1,
        record.links[0].previous is BackedUp,
        record.services.len() == 0,
        world::laid_apart(record, p),
        snapshot.at(record.links[0].link).entry is Other,
        !(snapshot.at(record.links[0].link).link is Target),
        snapshot.at(record.links[0].previous->backup).entry is Absent,
        !(snapshot.at(record.links[0].previous->backup).link is Target),
        preflight::target_refusal(
            record.links[0].target,
            record.links[0].target_blake3,
            snapshot,
        ) is None,
        !snapshot.has(p.record_path(record.key)),
    ensures
        ({
            let link = record.links[0];
            let w = World {
                files: Map::empty().insert(world::place(link.link), Node::File { text }),
                installed: Set::empty(),
            };
            &&& w.has(link.link)
            &&& world::agrees(record, snapshot, w)
            &&& !w.has(p.record_path(record.key))
            &&& scripts::enabling(record, p, snapshot, contents, stamp) is Ok
        }),
{
    let link = record.links[0];
    assert(world::whole(link) && world::stands_apart(link, p.record_path(record.key)));
    assert(preflight::link_refusal(link, snapshot) is None);
    text::lemma_none_refused(
        record.links,
        |link: LinkView| preflight::link_refusal(link, snapshot),
    );
    text::lemma_none_refused(
        record.services,
        |service: ServiceView| preflight::service_refusal(service, snapshot),
    );
}

/// A planned link activation, the snapshot it was planned from and a machine that the
/// snapshot tells of meet everything that the laws on activations ask for; where a link
/// displaces an entry, the machine has that entry.
pub proof fn a_planned_link_activation_has_a_machine(
    m: MetadataView,
    workspace: WorkspaceView,
    build_output: Text,
    bin: DirRead,
    active: Option<RecordTree>,
    around: Surroundings,
    contents: Text,
    stamp: Text,
)
    requires
        lists_each_name_once(bin.deep_view()),
        dirs_apart(around.view_paths(), keys::fork_key_of(m)),
        preflight::tells_one_moment(around.snapshot),
        links_are_entries(around.snapshot),
        !around.snapshot.has(around.view_paths().record_path(keys::fork_key_of(m))),
    ensures
        plan::shim_plan(m, workspace, build_output, bin, active, around) matches Ok(record) ==> {
            let p = around.view_paths();
            let w = machine_told_by(record, around.snapshot);
            &&& record.profiles.len() == 0 && record.modules.len() == 0
            &&& world::laid_apart(record, p)
            &&& forall|i: int|
                0 <= i < record.links.len() ==> paths::parent(#[trigger] record.links[i].link)
                    is Some
            &&& world::services_ready(record.services)
            &&& world::agrees(record, around.snapshot, w)
            &&& !w.has(p.record_path(record.key))
            &&& scripts::enabling(record, p, around.snapshot, contents, stamp) is Ok
            &&& forall|i: int|
                0 <= i < record.links.len() && (#[trigger] record.links[i]).previous is BackedUp
                    ==> w.has(record.links[i].link)
        },
{
    let p = around.view_paths();
    if let Ok(record) = plan::shim_plan(m, workspace, build_output, bin, active, around) {
        let w = machine_told_by(record, around.snapshot);
        planned_links_are_laid_apart(m, workspace, build_output, bin, active, around);
        preflight::a_fresh_link_plan_may_begin(m, workspace, build_output, bin, active, around);
        every_snapshot_has_a_machine(record, p, around.snapshot);
        assert forall|i: int|
            0 <= i < record.links.len() && (#[trigger] record.links[i]).previous is BackedUp
            implies w.has(record.links[i].link) by {
            let link = record.links[i];
            assert(speaks_of(record, link.link));
            world::lemma_no_refusal(
                record.links,
                |link: LinkView| preflight::link_refusal(link, around.snapshot),
                i,
            );
            assert(preflight::place_refusal(link.link, link.previous, around.snapshot) is None);
        }
    }
}

} // verus!
