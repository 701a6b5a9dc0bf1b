//! Planning an activation, carrying it out through each backend, and undoing it.
use vstd::prelude::*;

use crate::activation::keys::{self, PathsView};
use crate::activation::plan::{self, Surroundings};
use crate::activation::profiles;
use crate::activation::records::{LinkView, PreviousView, RecordView, ServiceView};
use crate::activation::scripts;
use crate::activation::transaction::{self, ActionView, Direction, FailureView, StepView};
use crate::activation::world::{self, Node, World};
use crate::backends::{self, ActivationBackend};
use crate::directory::{self, DirEntryView, ModeView};
use crate::enabling::{self, EnableFacts, EnableRequest};
use crate::laws::literals;
use crate::metadata::MetadataView;
use crate::paths;
use crate::text::{self, Text};
use crate::workspace::WorkspaceView;

verus! {

// ---- What is planned

/// Whether a record tells whose it is: the fork, its workspace and source, the build output
/// that is activated, and when.
pub open spec fn tells_whose(
    record: RecordView,
    m: MetadataView,
    w: WorkspaceView,
    output: Text,
    now: u64,
) -> bool {
    &&& record.format == 1
    &&& record.key == keys::fork_key_of(m)
    &&& record.package == keys::fork_display_name_of(m)
    &&& record.installable == m.package.installable
    &&& record.workspace == w.root
    &&& record.source == w.source
    &&& record.build_output == output
    &&& record.activated_at_unix == now
}

/// The backend that was asked for is planned. Where that was left open it is a profile, but
/// on NixOS a module for an output that holds a service.
pub proof fn the_requested_backend_is_planned(
    request: EnableRequest,
    m: MetadataView,
    w: WorkspaceView,
    facts: EnableFacts,
    around: Surroundings,
)
    ensures
        enabling::enable_plan(request, m, w, facts, around) matches Ok(plan) ==> {
            &&& request.backend != ActivationBackend::Auto ==> plan.backend == request.backend
            &&& request.backend == ActivationBackend::Auto && !facts.is_nixos ==> plan.backend
                == ActivationBackend::NixProfile
            &&& request.backend == ActivationBackend::Auto && facts.is_nixos ==> {
                &&& crate::targets::report_of(facts.output) is Ok
                &&& (plan.backend == ActivationBackend::NixosModule) == (exists|i: int|
                    0 <= i < crate::targets::report_of(facts.output)->Ok_0.targets.len()
                        && backends::is_service(
                        (#[trigger] crate::targets::report_of(facts.output)->Ok_0.targets[i]).details,
                    ))
                &&& plan.backend == ActivationBackend::NixosModule || plan.backend
                    == ActivationBackend::NixProfile
            }
            &&& request.profile is Some ==> plan.backend == ActivationBackend::NixProfile
            &&& request.flake is Some ==> request.switch
            &&& request.switch ==> plan.backend == ActivationBackend::NixosModule || plan.backend
                == ActivationBackend::HomeManagerModule
            &&& plan.record.mode == backend_name(plan.backend)
            &&& tells_whose(plan.record, m, w, facts.output.output@, around.now)
        },
{
}

/// How records name the backends.
pub open spec fn backend_name(backend: ActivationBackend) -> Text {
    match backend {
        ActivationBackend::Auto => "nix-profile"@,
        ActivationBackend::NixProfile => "nix-profile"@,
        ActivationBackend::NixosModule => "nixos-module"@,
        ActivationBackend::HomeManagerModule => "home-manager-module"@,
        ActivationBackend::PathShim => "path-shim"@,
        ActivationBackend::SystemdUserService => "systemd-user-service"@,
    }
}

/// A profile activation is one entry: the build output, in the profile that was asked for,
/// or in the default one where none was.
pub proof fn profile_plans_install_the_output(
    m: MetadataView,
    w: WorkspaceView,
    output: Text,
    profile: Option<Text>,
    around: Surroundings,
)
    ensures
        plan::profile_plan(m, w, output, profile, around) matches Ok(record) ==> {
            &&& tells_whose(record, m, w, output, around.now)
            &&& record.profiles.len() == 1
            &&& record.profiles[0].profile == profile
            &&& record.profiles[0].store_path == output
            &&& record.profiles[0].element is None
            &&& record.profiles[0].priority < 5
            &&& record.links.len() == 0 && record.services.len() == 0 && record.modules.len() == 0
        },
        (plan::profile_plan(m, w, output, profile, around) is Ok) == (!around.active(m)
            && paths::absolute(output) && around.snapshot.has(output)),
{
}

/// The same, from the request on.
pub proof fn requested_profiles_get_the_output(
    request: EnableRequest,
    m: MetadataView,
    w: WorkspaceView,
    facts: EnableFacts,
    around: Surroundings,
)
    ensures
        enabling::enable_plan(request, m, w, facts, around) matches Ok(plan) ==> plan.backend
            == ActivationBackend::NixProfile ==> {
            &&& plan.record.profiles.len() == 1
            &&& plan.record.profiles[0].profile == request.profile.deep_view()
            &&& plan.record.profiles[0].store_path == facts.output.output@
            &&& plan.record.links.len() == 0
            &&& plan.record.services.len() == 0
            &&& plan.record.modules.len() == 0
        },
{
}

/// A module activation is one module, of the backend that was asked for, and an overlay for
/// it, both in the directory of the activation.
pub proof fn module_plans_write_one_module(
    m: MetadataView,
    w: WorkspaceView,
    output: Text,
    backend: Text,
    around: Surroundings,
)
    ensures
        plan::module_plan(m, w, output, backend, around) matches Ok(record) ==> {
            let dir = around.view_paths().activation_dir(keys::fork_key_of(m));
            &&& tells_whose(record, m, w, output, around.now)
            &&& record.mode == backend
            &&& record.modules.len() == 1
            &&& record.modules[0].backend == backend
            &&& record.modules[0].overlay == paths::joined(
                paths::joined(dir, "nix"@),
                "overlay.nix"@,
            )
            &&& record.modules[0].module == paths::joined(
                paths::joined(dir, "nix"@),
                backend + ".nix"@,
            )
            &&& record.links.len() == 0 && record.services.len() == 0 && record.profiles.len() == 0
        },
        (plan::module_plan(m, w, output, backend, around) is Ok) == (!around.active(m)
            && paths::absolute(output) && around.snapshot.has(output) && (backend
            == "nixos-module"@ || backend == "home-manager-module"@)),
{
    reveal_strlit("nixos-module");
    reveal_strlit("home-manager-module");
    reveal_strlit("nixos-module.nix");
    reveal_strlit("home-manager-module.nix");
    reveal_strlit(".nix");
    assert("nixos-module"@ + ".nix"@ =~= "nixos-module.nix"@);
    assert("home-manager-module"@ + ".nix"@ =~= "home-manager-module.nix"@);
}

/// A service activation is one override of the service that was chosen, in the user's
/// systemd directory. Its program has to be there, and is remembered by its digest.
pub proof fn service_plans_override_the_service(
    m: MetadataView,
    w: WorkspaceView,
    output: Text,
    service: Text,
    service_file: Text,
    exec_start: Text,
    target: Text,
    around: Surroundings,
)
    ensures
        plan::service_plan(
            m,
            w,
            output,
            service,
            service_file,
            exec_start,
            target,
            around,
        ) matches Ok(record) ==> {
            &&& tells_whose(record, m, w, output, around.now)
            &&& record.services.len() == 1
            &&& record.services[0].service == service
            &&& record.services[0].service_file == service_file
            &&& record.services[0].exec_start == exec_start
            &&& record.services[0].target == target
            &&& around.snapshot.has(target) && paths::absolute(target)
            &&& around.snapshot.digest_or_cause(target) == Ok::<Text, Text>(
                record.services[0].target_blake3->0,
            )
            &&& record.services[0].target_blake3 is Some
            &&& record.services[0].override_path == paths::joined(
                paths::joined(
                    paths::joined(
                        paths::joined(around.view_paths().user_config_dir, "systemd"@),
                        "user"@,
                    ),
                    service + ".d"@,
                ),
                "forkpkg.conf"@,
            )
            &&& record.links.len() == 0 && record.profiles.len() == 0 && record.modules.len() == 0
        },
{
}

// ---- Links

proof fn lemma_links_planned(
    targets: Seq<Text>,
    key: Text,
    p: PathsView,
    active: Seq<crate::activation::records::EntryView>,
    snapshot: crate::snapshot::Snapshot,
)
    ensures
        plan::links_plan(targets, key, p, active, snapshot) matches Ok(links) ==> {
            &&& links.len() == targets.len()
            &&& forall|i: int|
                0 <= i < links.len() ==> plan::link_plan(targets[i], key, p, active, snapshot)
                    == Ok::<LinkView, Text>(#[trigger] links[i])
        },
    decreases targets.len(),
{
    if targets.len() > 0 {
        lemma_links_planned(targets.drop_last(), key, p, active, snapshot);
        if let Ok(links) = plan::links_plan(targets, key, p, active, snapshot) {
            let front = plan::links_plan(targets.drop_last(), key, p, active, snapshot)->Ok_0;
            assert forall|i: int| 0 <= i < links.len() implies plan::link_plan(
                targets[i],
                key,
                p,
                active,
                snapshot,
            ) == Ok::<LinkView, Text>(#[trigger] links[i]) by {
                if i < front.len() {
                    assert(links[i] == front[i]);
                    assert(targets.drop_last()[i] == targets[i]);
                }
            }
        }
    }
}

/// A link activation is one link for each executable of the output, in the user's bin
/// directory and of the same name. The link leads to the executable, which is remembered by
/// its digest; what stands in its place is backed up in the directory of the activation.
pub proof fn link_plans_link_every_executable(
    m: MetadataView,
    w: WorkspaceView,
    output: Text,
    bin: directory::DirRead,
    active: Option<crate::activation::store::RecordTree>,
    around: Surroundings,
)
    ensures
        plan::shim_plan(m, w, output, bin, active, around) matches Ok(record) ==> {
            let targets = directory::executables_in(
                paths::joined(output, "bin"@),
                bin.deep_view(),
            );
            let p = around.view_paths();
            &&& tells_whose(record, m, w, output, around.now)
            &&& targets is Ok
            &&& record.links.len() == targets->Ok_0.len()
            &&& record.links.len() > 0
            &&& forall|i: int|
                0 <= i < record.links.len() ==> {
                    let link = #[trigger] record.links[i];
                    &&& link.target == targets->Ok_0[i]
                    &&& paths::last_name(link.target) == Some(link.name)
                    &&& link.link == paths::joined(p.user_bin_dir, link.name)
                    &&& link.target_blake3 is Some
                    &&& around.snapshot.digest_or_cause(link.target) == Ok::<Text, Text>(
                        link.target_blake3->0,
                    )
                    &&& around.snapshot.has_entry(link.link) == Ok::<bool, Text>(
                        link.previous is BackedUp,
                    )
                    &&& link.previous matches PreviousView::BackedUp { backup } ==> {
                        &&& backup == paths::joined(
                            paths::joined(p.activation_dir(keys::fork_key_of(m)), "backups"@),
                            link.name,
                        )
                        &&& around.snapshot.has_entry(backup) == Ok::<bool, Text>(false)
                        &&& around.snapshot.has_plain_dir(link.link) == Ok::<bool, Text>(false)
                    }
                }
            &&& record.services.len() == 0 && record.profiles.len() == 0 && record.modules.len()
                == 0
        },
{
    if let Ok(record) = plan::shim_plan(m, w, output, bin, active, around) {
        let targets = directory::executables_in(
            paths::joined(output, "bin"@),
            bin.deep_view(),
        )->Ok_0;
        let others = crate::activation::store::entries_in(around.view_paths(), active)->Ok_0;
        lemma_links_planned(
            targets,
            keys::fork_key_of(m),
            around.view_paths(),
            others,
            around.snapshot,
        );
    }
}

/// Whether a directory entry is a file, or a link to one, that somebody may execute.
pub open spec fn is_executable(entry: DirEntryView) -> bool {
    &&& entry.file_type is File || entry.file_type is Symlink
    &&& entry.mode matches ModeView::File { mode } && mode & 0o111 != 0
}

proof fn lemma_executables(dir: Text, entries: Seq<Result<DirEntryView, Text>>)
    ensures
        directory::executables(dir, entries) matches Ok(found) ==> forall|path: Text| #[trigger]
            found.contains(path) == exists|i: int|
                0 <= i < entries.len() && (#[trigger] entries[i]) is Ok && entries[i]->Ok_0.path == path
                    && is_executable(entries[i]->Ok_0),
    decreases entries.len(),
{
    if let Ok(found) = directory::executables(dir, entries) {
        if entries.len() > 0 {
            let front = entries.drop_last();
            lemma_executables(dir, front);
            let before = directory::executables(dir, front)->Ok_0;
            let last = entries.last();
            assert(entries[entries.len() - 1] == last);
            assert forall|path: Text| #[trigger] found.contains(path) == exists|i: int|
                0 <= i < entries.len() && (#[trigger] entries[i]) is Ok && entries[i]->Ok_0.path == path
                    && is_executable(entries[i]->Ok_0) by {
                if before.contains(path) {
                    let i = choose|i: int|
                        0 <= i < front.len() && (#[trigger] front[i]) is Ok && front[i]->Ok_0.path
                            == path && is_executable(front[i]->Ok_0);
                    assert(entries[i] == front[i]);
                    let k = choose|k: int| 0 <= k < before.len() && before[k] == path;
                    assert(found[k] == path);
                }
                if is_executable(last->Ok_0) && last->Ok_0.path == path {
                    assert(found.last() == path);
                }
                if exists|i: int|
                    0 <= i < entries.len() && (#[trigger] entries[i]) is Ok && entries[i]->Ok_0.path
                        == path && is_executable(entries[i]->Ok_0) {
                    let i = choose|i: int|
                        0 <= i < entries.len() && (#[trigger] entries[i]) is Ok
                            && entries[i]->Ok_0.path == path && is_executable(entries[i]->Ok_0);
                    if i < front.len() {
                        assert(front[i] == entries[i]);
                    }
                }
                if found.contains(path) && !before.contains(path) {
                    let k = choose|k: int| 0 <= k < found.len() && found[k] == path;
                    if k < before.len() {
                        assert(before[k] == path);
                    }
                }
            }
        } else {
            assert(found =~= Seq::empty());
        }
    }
}

/// The executables of a directory are exactly its files, and its links to files, that may be
/// executed.
pub proof fn executables_are_what_may_be_executed(
    dir: Text,
    entries: Seq<Result<DirEntryView, Text>>,
    path: Text,
)
    ensures
        directory::executables_in(dir, Ok(entries)) matches Ok(found) ==> found.contains(path) == (
        exists|i: int|
            0 <= i < entries.len() && (#[trigger] entries[i]) is Ok && entries[i]->Ok_0.path == path
                && is_executable(entries[i]->Ok_0)),
{
    if let Ok(found) = directory::executables_in(dir, Ok(entries)) {
        lemma_executables(dir, entries);
        let listed = directory::executables(dir, entries)->Ok_0;
        crate::order::sorting_orders_and_keeps::<String>(listed);
        assert(found.to_multiset() == listed.to_multiset());
        found.to_multiset_ensures();
        listed.to_multiset_ensures();
        assert(found.contains(path) == (found.to_multiset().count(path) > 0));
        assert(listed.contains(path) == (listed.to_multiset().count(path) > 0));
    }
}

// ---- Nix profiles

/// Whether arguments choose a profile: by its path, or none at all.
pub open spec fn chooses(arguments: Seq<Text>, profile: Option<Text>) -> bool {
    match profile {
        Some(path) => exists|i: int|
            0 <= i < arguments.len() - 1 && #[trigger] arguments[i] == "--profile"@ && arguments[i
                + 1] == path,
        None => !arguments.contains("--profile"@),
    }
}

/// The nix commands that add, remove and list act on the profile that they are given, and the
/// first two on the store path.
pub proof fn profile_commands_name_their_profile(
    profile: Option<Text>,
    store_path: Text,
    priority: i64,
)
    requires
        paths::absolute(store_path),
    ensures
        chooses(profiles::profile_add_arguments(profile, store_path, priority), profile),
        profiles::profile_add_arguments(profile, store_path, priority).last() == store_path,
        profiles::profile_add_arguments(profile, store_path, priority).contains("add"@),
        chooses(profiles::profile_remove_arguments(profile, store_path), profile),
        profiles::profile_remove_arguments(profile, store_path).last() == store_path,
        profiles::profile_remove_arguments(profile, store_path).contains("remove"@),
        chooses(profiles::profile_list_arguments(profile), profile),
        profiles::profile_list_arguments(profile).contains("list"@),
        profiles::profile_list_arguments(profile).contains("--json"@),
{
    reveal_strlit("--profile");
    reveal_strlit("--extra-experimental-features");
    reveal_strlit("nix-command flakes");
    reveal_strlit("profile");
    reveal_strlit("add");
    reveal_strlit("remove");
    reveal_strlit("list");
    reveal_strlit("--json");
    reveal_strlit("--priority");
    let adding = profiles::profile_add_arguments(profile, store_path, priority);
    let removing = profiles::profile_remove_arguments(profile, store_path);
    let listing = profiles::profile_list_arguments(profile);
    assert(adding[3] == "add"@);
    assert(removing[3] == "remove"@);
    assert(listing[3] == "list"@ && listing[4] == "--json"@);
    if let Some(path) = profile {
        assert(adding[6] == "--profile"@ && adding[7] == path);
        assert(removing[4] == "--profile"@ && removing[5] == path);
        assert(listing[5] == "--profile"@ && listing[6] == path);
    } else {
        lemma_number_is_no_word(priority);
        assert forall|i: int| 0 <= i < adding.len() implies adding[i] != "--profile"@ by {
            assert(adding.len() == 7);
            assert(adding[0] == "--extra-experimental-features"@);
            assert(adding[1] == "nix-command flakes"@);
            assert(adding[2] == "profile"@);
            assert(adding[4] == "--priority"@);
            assert(adding[5] == crate::number::signed_decimal(priority as int));
            assert(adding[6] == store_path);
            assert("--priority"@[3] == 'r' && "--profile"@[4] == 'o');
            assert("--priority"@[4] == 'i');
            assert("add"@[0] == 'a' && "profile"@[0] == 'p' && "remove"@[0] == 'r');
            assert("--extra-experimental-features"@[0] == '-' && "nix-command flakes"@[0] == 'n');
        }
        assert forall|i: int| 0 <= i < removing.len() implies removing[i] != "--profile"@ by {
            assert(removing.len() == 5);
            assert(removing[0] == "--extra-experimental-features"@);
            assert(removing[1] == "nix-command flakes"@);
            assert(removing[2] == "profile"@);
            assert(removing[4] == store_path);
            assert("--extra-experimental-features"@.len() != "--profile"@.len());
            assert("profile"@[0] == 'p' && "remove"@[0] == 'r' && "nix-command flakes"@[0] == 'n');
        }
        assert forall|i: int| 0 <= i < listing.len() implies listing[i] != "--profile"@ by {
            assert(listing.len() == 5);
            assert(listing[0] == "--extra-experimental-features"@);
            assert(listing[1] == "nix-command flakes"@);
            assert(listing[2] == "profile"@);
            assert("--extra-experimental-features"@.len() != "--profile"@.len());
            assert("--json"@.len() != "--profile"@.len());
            assert("profile"@[0] == 'p' && "list"@[0] == 'l' && "nix-command flakes"@[0] == 'n');
        }
    }
}

proof fn lemma_decimal_ends(n: nat)
    ensures
        crate::number::decimal(n).len() > 0,
        '0' <= crate::number::decimal(n).last() <= '9',
    decreases n,
{
}

proof fn lemma_number_is_no_word(n: i64)
    ensures
        crate::number::signed_decimal(n as int) != "--profile"@,
{
    reveal_strlit("--profile");
    let digits = if n < 0 {
        crate::number::decimal((-n) as nat)
    } else {
        crate::number::decimal(n as nat)
    };
    lemma_decimal_ends((-n) as nat);
    lemma_decimal_ends(n as nat);
    assert(crate::number::signed_decimal(n as int).last() == digits.last());
    assert("--profile"@.last() == 'e');
}

/// Installing a profile activation as it was asked for makes the profile that was asked for
/// provide the build output, finds the element that does, and changes nothing else.
pub proof fn requested_profiles_provide_the_output(
    request: EnableRequest,
    m: MetadataView,
    w: WorkspaceView,
    facts: EnableFacts,
    around: Surroundings,
    stamp: Text,
    machine: World,
    failure: FailureView,
)
    ensures
        enabling::enable_plan(request, m, w, facts, around) matches Ok(plan) ==> plan.backend
            == ActivationBackend::NixProfile ==> {
            let begun = scripts::installing(plan.record, stamp);
            let end = world::run(begun->Ok_0, machine, -1, failure);
            &&& begun is Ok
            &&& end.0.phase is Done
            &&& end.0.found is Some
            &&& end.1.installed == machine.installed.insert(
                (request.profile.deep_view(), world::place(facts.output.output@)),
            )
            &&& end.1.files == machine.files
        },
{
    if let Ok(plan) = enabling::enable_plan(request, m, w, facts, around) {
        if plan.backend == ActivationBackend::NixProfile {
            let entry = plan.record.profiles[0];
            let key = (entry.profile, world::place(entry.store_path));
            let steps = scripts::install_steps(entry);
            let s = transaction::begun(Direction::Activation, steps, stamp);
            let more = World { installed: machine.installed.insert(key), ..machine };
            world::lemma_take(s, machine, -1, failure);
            let s1 = s.after_success(world::done());
            assert(s1.steps =~= seq![steps[1]]);
            world::lemma_take(s1, more, -2, failure);
            world::lemma_listing(more, entry.profile, entry.store_path);
            let listed = world::answer(
                false,
                Seq::empty(),
                world::listing_in(more, entry.profile, entry.store_path),
            );
            let s2 = s1.after_success(listed);
            assert(s2.steps =~= Seq::empty());
            world::lemma_turn(s2);
            world::lemma_over(s2.turned(), more, -3, failure);
        }
    }
}

/// The element that was found is kept in the record, and nothing else of it changes.
pub proof fn found_elements_are_kept(record: RecordView, element: Option<Text>)
    requires
        record.profiles.len() > 0,
    ensures
        scripts::with_element_of(record, element).profiles[0].element == element,
        scripts::with_element_of(record, element).profiles[0].profile == record.profiles[0].profile,
        scripts::with_element_of(record, element).profiles[0].store_path
            == record.profiles[0].store_path,
        scripts::with_element_of(record, element).profiles[0].priority
            == record.profiles[0].priority,
        (RecordView { profiles: record.profiles, ..scripts::with_element_of(record, element) })
            == record,
        scripts::with_element_of(record, element).profiles.len() == record.profiles.len(),
{
}

// ---- What an activation needs

/// Whether a file is there, with the contents that were recorded of it.
pub open spec fn as_recorded(
    target: Text,
    digest: Option<Text>,
    snapshot: crate::snapshot::Snapshot,
) -> bool {
    snapshot.has(target) && (digest matches Some(digest) ==> snapshot.digest_or_cause(target)
        == Ok::<Text, Text>(digest))
}

/// An activation of links and services begins exactly where its fork has no record, every
/// program is as it was planned, no entry has come into the place of a new link, an override
/// or a backup, and every entry that is to be backed up is still there and no directory.
pub proof fn activations_begin_where_nothing_has_changed(
    record: RecordView,
    p: PathsView,
    snapshot: crate::snapshot::Snapshot,
    contents: Text,
    stamp: Text,
)
    ensures
        (scripts::enabling(record, p, snapshot, contents, stamp) is Ok) == ({
            &&& !snapshot.has(p.record_path(record.key))
            &&& forall|i: int|
                0 <= i < record.links.len() ==> {
                    let link = #[trigger] record.links[i];
                    &&& as_recorded(link.target, link.target_blake3, snapshot)
                    &&& match link.previous {
                        PreviousView::Absent => snapshot.has_entry(link.link) == Ok::<bool, Text>(
                            false,
                        ),
                        PreviousView::BackedUp { backup } => {
                            &&& snapshot.has_entry(link.link) == Ok::<bool, Text>(true)
                            &&& snapshot.has_plain_dir(link.link) == Ok::<bool, Text>(false)
                            &&& snapshot.has_entry(backup) == Ok::<bool, Text>(false)
                        },
                    }
                }
            &&& forall|i: int|
                0 <= i < record.services.len() ==> {
                    let service = #[trigger] record.services[i];
                    &&& as_recorded(service.target, service.target_blake3, snapshot)
                    &&& snapshot.has_entry(service.override_path) == Ok::<bool, Text>(false)
                }
        }),
{
    let f = |link: LinkView| crate::activation::preflight::link_refusal(link, snapshot);
    let g = |service: ServiceView|
        crate::activation::preflight::service_refusal(service, snapshot);
    lemma_refused_or_not(record.links, f);
    lemma_refused_or_not(record.services, g);
    assert forall|i: int| 0 <= i < record.links.len() implies (f(#[trigger] record.links[i])
        is None) == ({
        let link = record.links[i];
        &&& as_recorded(link.target, link.target_blake3, snapshot)
        &&& match link.previous {
            PreviousView::Absent => snapshot.has_entry(link.link) == Ok::<bool, Text>(false),
            PreviousView::BackedUp { backup } => {
                &&& snapshot.has_entry(link.link) == Ok::<bool, Text>(true)
                &&& snapshot.has_plain_dir(link.link) == Ok::<bool, Text>(false)
                &&& snapshot.has_entry(backup) == Ok::<bool, Text>(false)
            },
        }
    }) by {
    }
    assert forall|i: int| 0 <= i < record.services.len() implies (g(#[trigger] record.services[i])
        is None) == ({
        let service = record.services[i];
        &&& as_recorded(service.target, service.target_blake3, snapshot)
        &&& snapshot.has_entry(service.override_path) == Ok::<bool, Text>(false)
    }) by {
    }
}

proof fn lemma_refused_or_not<A>(s: Seq<A>, f: spec_fn(A) -> Option<Text>)
    ensures
        (text::first_refusal(s, f) is None) == (forall|i: int|
            0 <= i < s.len() ==> f(#[trigger] s[i]) is None),
    decreases s.len(),
{
    if s.len() > 0 {
        lemma_refused_or_not(s.drop_first(), f);
        assert forall|i: int| 0 < i < s.len() implies #[trigger] s[i] == s.drop_first()[i - 1] by {
        }
        if forall|i: int| 0 <= i < s.len() ==> f(#[trigger] s[i]) is None {
            assert forall|i: int| 0 <= i < s.drop_first().len() implies f(
                #[trigger] s.drop_first()[i],
            ) is None by {
                assert(s[i + 1] == s.drop_first()[i]);
            }
        }
    }
}

/// Undoing an activation begins exactly where its record is there, every link is still the
/// one that was made and leads to the recorded program, every backup can be restored, and
/// every override still starts what was activated.
pub proof fn deactivations_begin_where_nothing_has_changed(
    record: RecordView,
    p: PathsView,
    snapshot: crate::snapshot::Snapshot,
    stamp: Text,
)
    ensures
        (scripts::disabling(record, p, snapshot, stamp) is Ok) == ({
            &&& snapshot.has_file(p.record_path(record.key))
            &&& forall|i: int|
                0 <= i < record.links.len() ==> {
                    let link = #[trigger] record.links[i];
                    &&& snapshot.at(link.link).link matches crate::snapshot::LinkReadView::Target {
                        path,
                    } && paths::same_path(path, link.target)
                    &&& as_recorded(link.target, link.target_blake3, snapshot)
                    &&& link.previous matches PreviousView::BackedUp { backup }
                        ==> snapshot.has_entry(backup) == Ok::<bool, Text>(true)
                }
            &&& forall|i: int|
                0 <= i < record.services.len() ==> {
                    let service = #[trigger] record.services[i];
                    &&& as_recorded(service.target, service.target_blake3, snapshot)
                    &&& snapshot.has_file(service.override_path)
                    &&& snapshot.at(service.override_path).text matches Ok(contents)
                        && text::occurs(contents, service.exec_start)
                }
        }),
{
    let f = |link: LinkView| crate::activation::preflight::unlink_refusal(link, snapshot);
    let g = |service: ServiceView|
        crate::activation::preflight::release_refusal(service, snapshot);
    lemma_refused_or_not(record.links, f);
    lemma_refused_or_not(record.services, g);
    assert forall|i: int| 0 <= i < record.links.len() implies (f(#[trigger] record.links[i])
        is None) == ({
        let link = record.links[i];
        &&& snapshot.at(link.link).link matches crate::snapshot::LinkReadView::Target { path }
            && paths::same_path(path, link.target)
        &&& as_recorded(link.target, link.target_blake3, snapshot)
        &&& link.previous matches PreviousView::BackedUp { backup } ==> snapshot.has_entry(backup)
            == Ok::<bool, Text>(true)
    }) by {
    }
    assert forall|i: int| 0 <= i < record.services.len() implies (g(#[trigger] record.services[i])
        is None) == ({
        let service = record.services[i];
        &&& as_recorded(service.target, service.target_blake3, snapshot)
        &&& snapshot.has_file(service.override_path)
        &&& snapshot.at(service.override_path).text matches Ok(contents) && text::occurs(
            contents,
            service.exec_start,
        )
    }) by {
    }
}

// ---- Services

/// An override makes a service forget its own command and start the given one.
pub proof fn overrides_start_the_given_command(exec_start: Text)
    requires
        !exec_start.contains('\n'),
    ensures
        text::pieces(scripts::override_text(exec_start), '\n') == seq![
            "[Service]"@,
            "ExecStart="@,
            "ExecStart="@ + exec_start,
            Seq::empty(),
        ],
{
    reveal_strlit("[Service]\nExecStart=\nExecStart=");
    reveal_strlit("[Service]");
    reveal_strlit("ExecStart=");
    reveal_strlit("\n");
    let head = "[Service]"@;
    let reset = "ExecStart="@;
    let set = reset + exec_start;
    let none = Seq::<char>::empty();
    let whole = scripts::override_text(exec_start);
    let a = head.push('\n') + (reset.push('\n') + reset);
    assert(a == "[Service]\nExecStart=\nExecStart="@) by {
        reveal_with_fuel(literals::same_from, 33);
        literals::lemma_same(a, "[Service]\nExecStart=\nExecStart="@);
    }
    assert(whole =~= head.push('\n') + (reset.push('\n') + (set.push('\n') + none)));
    text::lemma_pieces_joined(head, reset.push('\n') + (set.push('\n') + none), '\n');
    text::lemma_pieces_joined(reset, set.push('\n') + none, '\n');
    text::lemma_pieces_joined(set, none, '\n');
    reveal_with_fuel(literals::free_from, 12);
    literals::lemma_free(head, '\n');
    literals::lemma_free(reset, '\n');
    literals::lemma_sum_holds(reset, exec_start, '\n');
    literals::lemma_one_piece(head, '\n');
    literals::lemma_one_piece(reset, '\n');
    literals::lemma_one_piece(set, '\n');
    literals::lemma_one_piece(none, '\n');
    assert(text::pieces(whole, '\n') =~= seq![head, reset, set, none]);
}

/// Overriding a service writes the override, then makes systemd read it, and then restarts
/// the service.
pub proof fn overridden_services_are_restarted(service: ServiceView, stamp: Text)
    requires
        paths::parent(service.override_path) is Some,
    ensures
        exists|i: int, j: int, k: int|
            0 <= i < j < k < scripts::service_steps(service, stamp).len() && {
                &&& (#[trigger] scripts::service_steps(service, stamp)[i]).action matches ActionView::WriteFile {
                    path,
                    text,
                    ..
                } && path == service.override_path && text == scripts::override_text(
                    service.exec_start,
                )
                &&& (#[trigger] scripts::service_steps(service, stamp)[j]).action
                    == (ActionView::Systemctl { arguments: seq!["daemon-reload"@] })
                &&& (#[trigger] scripts::service_steps(service, stamp)[k]).action
                    == (ActionView::Systemctl { arguments: seq!["restart"@, service.service] })
                &&& forall|q: int|
                    0 <= q < scripts::service_steps(service, stamp).len() ==> (
                    #[trigger] scripts::service_steps(service, stamp)[q]).severity
                        == transaction::Severity::Abort
            },
{
    let steps = scripts::service_steps(service, stamp);
    assert(steps[1].action is WriteFile);
    assert(steps[2].action == (ActionView::Systemctl { arguments: seq!["daemon-reload"@] }));
    assert(steps[3].action == (ActionView::Systemctl {
        arguments: seq!["restart"@, service.service],
    }));
    assert(steps.len() == 4);
}

/// Giving a service back removes the override, makes systemd notice, and restarts the service.
pub proof fn released_services_are_restarted(service: ServiceView)
    ensures
        exists|i: int, j: int, k: int|
            0 <= i < j < k < scripts::release_steps(service).len() && {
                &&& (#[trigger] scripts::release_steps(service)[i]).action
                    == (ActionView::RemoveFile { path: service.override_path })
                &&& (#[trigger] scripts::release_steps(service)[j]).action
                    == (ActionView::Systemctl { arguments: seq!["daemon-reload"@] })
                &&& (#[trigger] scripts::release_steps(service)[k]).action
                    == (ActionView::Systemctl { arguments: seq!["restart"@, service.service] })
            },
{
    let steps = scripts::release_steps(service);
    assert(steps[1].action == (ActionView::RemoveFile { path: service.override_path }));
    assert(steps[2].action == (ActionView::Systemctl { arguments: seq!["daemon-reload"@] }));
    assert(steps[3].action == (ActionView::Systemctl {
        arguments: seq!["restart"@, service.service],
    }));
}

// ---- Modules

proof fn lemma_text_written(
    s: transaction::RunView,
    path: Text,
    contents: Text,
    tail: Seq<StepView>,
    w: World,
    fault: int,
    failure: FailureView,
) -> (next: transaction::RunView)
    requires
        s.phase is Forward,
        fault < 0,
        paths::parent(path) is Some,
        s.steps == transaction::write_text(path, contents, s.stamp) + tail,
    ensures
        next.phase is Forward,
        next.steps == tail,
        next.stamp == s.stamp,
        next.undo == s.undo,
        world::run(s.settled(), w, fault, failure) == world::run(
            next.settled(),
            w.put(path, Node::File { text: contents }),
            fault - 2,
            failure,
        ),
{
    let steps = transaction::write_text(path, contents, s.stamp);
    assert(s.steps[0] == steps[0] && s.steps[1] == steps[1]);
    world::lemma_take(s, w, fault, failure);
    let s1 = s.after_success(world::done());
    assert(s1.steps[0] == steps[1]);
    world::lemma_take(s1, w, fault - 1, failure);
    let s2 = s1.after_success(world::done());
    assert(s2.steps =~= tail);
    s2
}

/// A module activation leaves the overlay, the module of an active fork, and the record
/// behind, and touches nothing else.
pub proof fn module_activations_write_their_files(
    record: RecordView,
    p: PathsView,
    overlay: Text,
    contents: Text,
    stamp: Text,
    machine: World,
    failure: FailureView,
)
    requires
        record.modules.len() > 0,
        paths::parent(record.modules[0].overlay) is Some,
        paths::parent(record.modules[0].module) is Some,
    ensures
        ({
            let begun = scripts::moduling(record, p, overlay, contents, stamp);
            let end = world::run(begun->Ok_0, machine, -1, failure);
            let module = record.modules[0];
            &&& begun is Ok
            &&& end.0.phase is Done
            &&& end.1 == machine.put(module.overlay, Node::File { text: overlay }).put(
                module.module,
                Node::File { text: scripts::enabled_text(module) },
            ).put(p.record_path(record.key), Node::File { text: contents })
        }),
{
    let module = record.modules[0];
    let text = scripts::enabled_text(module);
    let first = transaction::write_text(module.overlay, overlay, stamp);
    let second = transaction::write_text(module.module, text, stamp);
    let last = scripts::record_steps(record.key, p, contents, stamp);
    let s = transaction::begun(
        Direction::Activation,
        scripts::module_enable_steps(record, p, overlay, contents, stamp),
        stamp,
    );
    assert(s.steps =~= first + (second + last));
    let s1 = lemma_text_written(
        s,
        module.overlay,
        overlay,
        second + last,
        machine,
        -1,
        failure,
    );
    let w1 = machine.put(module.overlay, Node::File { text: overlay });
    let s2 = lemma_text_written(s1, module.module, text, last, w1, -3, failure);
    let w2 = w1.put(module.module, Node::File { text });
    assert(s2.undo.len() == 0);
    assert(world::on_the_way(s2, w2, w2));
    world::lemma_record_written(record.key, p, contents, s2, w2, w2, -5, failure);
}

/// Undoing a module activation, where it is done, leaves a module that changes nothing, and
/// no record.
pub proof fn undone_modules_change_nothing(
    record: RecordView,
    p: PathsView,
    snapshot: crate::snapshot::Snapshot,
    stamp: Text,
    machine: World,
    fault: int,
    failure: FailureView,
)
    requires
        record.links.len() == 0,
        record.services.len() == 0,
        record.profiles.len() == 0,
        record.modules.len() == 1,
        scripts::disabling(record, p, snapshot, stamp) is Ok,
    ensures
        ({
            let end = world::run(
                scripts::disabling(record, p, snapshot, stamp)->Ok_0,
                machine,
                fault,
                failure,
            );
            let module = record.modules[0];
            ||| end.0.phase is Failed && end.1 == machine
            ||| end.0.phase is Done && end.1 == machine.put(
                module.module,
                Node::File { text: scripts::disabled_text(module) },
            ).without(p.record_path(record.key))
        }),
{
    world::lemma_disabling(record, p, stamp, machine, fault, failure);
    let module = record.modules[0];
    assert(record.modules.drop_first() =~= Seq::empty());
    let after = world::module_disabled(module, machine);
    assert(world::modules_disabled(record.modules.drop_first(), after) == after);
    assert(world::links_disabled(record.links, machine) == machine);
    assert(world::services_disabled(record.services, machine) == machine);
    assert(world::profiles_disabled(record.profiles, machine) == machine);
}

// ---- Which record is undone

/// What is undone is the fork's own record, where it has one.
pub proof fn the_own_record_is_undone(
    m: MetadataView,
    p: PathsView,
    facts: Seq<crate::activation::store::RecordFactsView>,
    snapshot: crate::snapshot::Snapshot,
    stamp: Text,
)
    ensures
        crate::activation::preflight::disable_plan_of(m, p, facts, snapshot) matches Ok(record)
            ==> {
            &&& crate::activation::store::status_of(m, p, facts) == Ok::<
                Option<RecordView>,
                Text,
            >(Some(record))
            &&& scripts::disabling(record, p, snapshot, stamp) is Ok
        },
        crate::activation::store::status_of(m, p, facts) == Ok::<Option<RecordView>, Text>(None)
            ==> crate::activation::preflight::disable_plan_of(m, p, facts, snapshot) is Err,
{
}

// ---- Links of other forks

proof fn lemma_unmanaged(
    entries: Seq<crate::activation::records::EntryView>,
    key: Text,
    link: Text,
    i: int,
)
    requires
        plan::manager(entries, key, link) is None,
        0 <= i < entries.len(),
    ensures
        entries[i] matches crate::activation::records::EntryView::Valid { record, .. } ==> (
        record.key == key || !plan::manages(record, link)),
    decreases entries.len(),
{
    if i > 0 {
        lemma_unmanaged(entries.drop_first(), key, link, i - 1);
        assert(entries.drop_first()[i - 1] == entries[i]);
    }
}

/// No link is planned where another active fork has one.
pub proof fn links_of_other_forks_are_spared(
    m: MetadataView,
    w: WorkspaceView,
    output: Text,
    bin: directory::DirRead,
    active: Option<crate::activation::store::RecordTree>,
    around: Surroundings,
    i: int,
    j: int,
    k: int,
)
    requires
        plan::shim_plan(m, w, output, bin, active, around) is Ok,
        crate::activation::store::entries_in(around.view_paths(), active) is Ok,
        0 <= i < plan::shim_plan(m, w, output, bin, active, around)->Ok_0.links.len(),
        0 <= j < crate::activation::store::entries_in(
            around.view_paths(),
            active,
        )->Ok_0.len(),
    ensures
        crate::activation::store::entries_in(
            around.view_paths(),
            active,
        )->Ok_0[j] matches crate::activation::records::EntryView::Valid { record, .. } ==> (
        record.key != keys::fork_key_of(m) && 0 <= k < record.links.len() ==> !paths::same_path(
            record.links[k].link,
            plan::shim_plan(m, w, output, bin, active, around)->Ok_0.links[i].link,
        )),
{
    let planned = plan::shim_plan(m, w, output, bin, active, around)->Ok_0;
    let others = crate::activation::store::entries_in(around.view_paths(), active)->Ok_0;
    let targets = directory::executables_in(
        paths::joined(output, "bin"@),
        bin.deep_view(),
    )->Ok_0;
    lemma_links_planned(
        targets,
        keys::fork_key_of(m),
        around.view_paths(),
        others,
        around.snapshot,
    );
    let link = planned.links[i];
    assert(plan::link_plan(
        targets[i],
        keys::fork_key_of(m),
        around.view_paths(),
        others,
        around.snapshot,
    ) == Ok::<LinkView, Text>(link));
    lemma_unmanaged(others, keys::fork_key_of(m), link.link, j);
}

// ---- What a profile holds

/// The element that is found for a store path is active in the profile and provides the path;
/// none is found just where none does.
pub proof fn found_elements_provide_the_path(
    elements: Seq<profiles::ElementView>,
    store_path: Text,
)
    ensures
        match profiles::element_for(elements, store_path) {
            Some(name) => exists|i: int|
                0 <= i < elements.len() && provides(#[trigger] elements[i], store_path)
                    && elements[i].name == name,
            None => forall|i: int|
                0 <= i < elements.len() ==> !provides(#[trigger] elements[i], store_path),
        },
    decreases elements.len(),
{
    if elements.len() > 0 {
        let rest = elements.drop_first();
        found_elements_provide_the_path(rest, store_path);
        if provides(elements[0], store_path) {
            assert(profiles::element_for(elements, store_path) == Some(elements[0].name));
        } else {
            match profiles::element_for(rest, store_path) {
                Some(name) => {
                    let i = choose|i: int|
                        0 <= i < rest.len() && provides(#[trigger] rest[i], store_path)
                            && rest[i].name == name;
                    assert(elements[i + 1] == rest[i]);
                },
                None => {
                    assert forall|i: int| 0 <= i < elements.len() implies !provides(
                        #[trigger] elements[i],
                        store_path,
                    ) by {
                        if i > 0 {
                            assert(rest[i - 1] == elements[i]);
                        }
                    }
                },
            }
        }
    }
}

/// Whether an element is active and one of its store paths is the given one.
pub open spec fn provides(element: profiles::ElementView, store_path: Text) -> bool {
    element.active && exists|i: int|
        0 <= i < element.store_paths.len() && paths::components(#[trigger] element.store_paths[i])
            == paths::components(store_path)
}

} // verus!
