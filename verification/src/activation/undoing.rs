//! What disabling gives back: an activation that nothing has touched since can always be
//! undone, and the machine is then as it was.
use vstd::prelude::*;

use crate::activation::keys::{self, PathsView};
use crate::activation::layout;
use crate::activation::plan::{self, Surroundings};
use crate::activation::preflight;
use crate::activation::records::{LinkView, PreviousView, RecordView, ServiceView};
use crate::activation::scripts;
use crate::activation::store::{self, RecordFactsView, RecordTree};
use crate::activation::transaction::{self, Direction, FailureView};
use crate::activation::world::{self, Node, World};
use crate::directory::DirRead;
use crate::metadata::MetadataView;
use crate::paths;
use crate::snapshot::{Snapshot, TargetKind};
use crate::text::{self, Text};
use crate::workspace::WorkspaceView;

verus! {

// ---- Links and services

/// Whether a snapshot tells of a link, and of what it displaced, as they are on a machine.
pub open spec fn tells_of_link(link: LinkView, snapshot: Snapshot, w: World) -> bool {
    &&& w.has(link.link) && w.files[world::place(link.link)] is Link ==> {
        &&& snapshot.at(link.link).link is Target
        &&& world::place(snapshot.at(link.link).link->path) == w.files[world::place(
            link.link,
        )]->target
    }
    &&& match link.previous {
        PreviousView::Absent => true,
        PreviousView::BackedUp { backup } => snapshot.has_entry(backup) == Ok::<bool, Text>(
            w.has(backup),
        ),
    }
}

/// Whether a snapshot tells of the text of a file as it is on a machine.
pub open spec fn tells_of_file(path: Text, snapshot: Snapshot, w: World) -> bool {
    w.has(path) && w.files[world::place(path)] is File ==> {
        &&& snapshot.has_file(path)
        &&& snapshot.at(path).text == Ok::<Text, Text>(w.files[world::place(path)]->text)
    }
}

/// Whether a snapshot tells of an activation as it is on a machine.
pub open spec fn tells_of(record: RecordView, p: PathsView, snapshot: Snapshot, w: World) -> bool {
    &&& forall|i: int|
        0 <= i < record.links.len() ==> tells_of_link(#[trigger] record.links[i], snapshot, w)
    &&& forall|i: int|
        0 <= i < record.services.len() ==> tells_of_file(
            (#[trigger] record.services[i]).override_path,
            snapshot,
            w,
        )
    &&& tells_of_file(p.record_path(record.key), snapshot, w)
}

/// Whether what was activated is still there, with the contents it had.
pub open spec fn targets_kept(record: RecordView, snapshot: Snapshot) -> bool {
    &&& forall|i: int|
        0 <= i < record.links.len() ==> preflight::target_refusal(
            (#[trigger] record.links[i]).target,
            record.links[i].target_blake3,
            snapshot,
        ) is None
    &&& forall|i: int|
        0 <= i < record.services.len() ==> preflight::target_refusal(
            (#[trigger] record.services[i]).target,
            record.services[i].target_blake3,
            snapshot,
        ) is None
}

/// Whether an override is there with the text that it was given.
pub open spec fn override_written(service: ServiceView, w: World) -> bool {
    w.has(service.override_path) && w.files[world::place(service.override_path)] == (Node::File {
        text: scripts::override_text(service.exec_start),
    })
}

proof fn lemma_overrides_written(services: Seq<ServiceView>, w: World)
    requires
        world::services_apart(services),
    ensures
        forall|i: int|
            0 <= i < services.len() ==> override_written(
                #[trigger] services[i],
                world::services_enabled(services, w),
            ),
    decreases services.len(),
{
    if services.len() > 0 {
        let others = services.drop_first();
        let made = world::service_enabled(services[0], w);
        let all = world::services_enabled(services, w);
        assert forall|i: int| 0 <= i < others.len() implies world::place(
            #[trigger] others[i].override_path,
        ) != world::place(services[0].override_path) by {
            assert(others[i] == services[i + 1]);
            assert(world::place(services[0].override_path) != world::place(
                services[i + 1].override_path,
            ));
        }
        assert forall|i: int, j: int| 0 <= i < j < others.len() implies world::place(
            #[trigger] others[i].override_path,
        ) != world::place(#[trigger] others[j].override_path) by {
            assert(others[i] == services[i + 1] && others[j] == services[j + 1]);
        }
        lemma_overrides_written(others, made);
        world::lemma_services_frame(others, services[0].override_path, made);
        assert forall|i: int| 0 <= i < services.len() implies override_written(
            #[trigger] services[i],
            all,
        ) by {
            if i > 0 {
                assert(services[i] == others[i - 1]);
                assert(override_written(others[i - 1], all));
            }
        }
    }
}

proof fn lemma_override_names_its_command(exec_start: Text)
    ensures
        text::occurs(scripts::override_text(exec_start), exec_start),
{
    let whole = scripts::override_text(exec_start);
    let head = "[Service]\nExecStart=\nExecStart="@;
    let at = head.len() as int;
    assert(whole.subrange(at, at + exec_start.len()) =~= exec_start);
    assert(text::occurs_at(whole, exec_start, at));
}

/// An activation that nothing has touched since may be undone.
pub proof fn an_untouched_activation_may_be_undone(
    record: RecordView,
    p: PathsView,
    contents: Text,
    w: World,
    later: Snapshot,
    stamp: Text,
)
    requires
        world::laid_apart(record, p),
        world::links_ready(record.links, w),
        tells_of(record, p, later, world::enabled(record, p, contents, w)),
        targets_kept(record, later),
    ensures
        scripts::disabling(record, p, later, stamp) is Ok,
{
    let own = p.record_path(record.key);
    let linked = world::links_enabled(record.links, w);
    let served = world::services_enabled(record.services, linked);
    let all = world::enabled(record, p, contents, w);
    let on_link = |link: LinkView| preflight::unlink_refusal(link, later);
    let on_service = |service: ServiceView| preflight::release_refusal(service, later);
    world::lemma_enabled_is_undoable(record, p, contents, w);
    lemma_overrides_written(record.services, linked);
    assert forall|i: int| 0 <= i < record.links.len() implies on_link(
        #[trigger] record.links[i],
    ) is None by {
        let link = record.links[i];
        assert(world::link_present(link, all) && world::link_intact(link, all));
        assert(tells_of_link(link, later, all));
        assert(paths::same_path(later.at(link.link).link->path, link.target));
    }
    assert forall|i: int| 0 <= i < record.services.len() implies on_service(
        #[trigger] record.services[i],
    ) is None by {
        let service = record.services[i];
        assert(override_written(service, served));
        assert(world::place(service.override_path) != world::place(own));
        assert(tells_of_file(service.override_path, later, all));
        lemma_override_names_its_command(service.exec_start);
    }
    text::lemma_none_refused(record.links, on_link);
    text::lemma_none_refused(record.services, on_service);
    assert(tells_of_file(own, later, all));
}

/// Where nothing has changed since an activation of links and services was made, it can be
/// undone, and the machine is then as it was before: a link that was new is gone, the very
/// entry that another displaced is in its place again, and no backup, override or record is
/// left.
pub proof fn disabling_gives_back_what_enabling_displaced(
    record: RecordView,
    p: PathsView,
    snapshot: Snapshot,
    later: Snapshot,
    contents: Text,
    stamp: Text,
    later_stamp: Text,
    w: World,
    failure: FailureView,
)
    requires
        record.profiles.len() == 0,
        record.modules.len() == 0,
        world::laid_apart(record, p),
        forall|i: int|
            0 <= i < record.links.len() ==> paths::parent(#[trigger] record.links[i].link) is Some,
        world::services_ready(record.services),
        world::agrees(record, snapshot, w),
        !w.has(p.record_path(record.key)),
        scripts::enabling(record, p, snapshot, contents, stamp) is Ok,
        tells_of(
            record,
            p,
            later,
            world::run(
                scripts::enabling(record, p, snapshot, contents, stamp)->Ok_0,
                w,
                -1,
                failure,
            ).1,
        ),
        targets_kept(record, later),
    ensures
        scripts::disabling(record, p, later, later_stamp) is Ok,
        ({
            let made = world::run(
                scripts::enabling(record, p, snapshot, contents, stamp)->Ok_0,
                w,
                -1,
                failure,
            );
            let undone = world::run(
                scripts::disabling(record, p, later, later_stamp)->Ok_0,
                made.1,
                -1,
                failure,
            );
            &&& made.0.phase is Done
            &&& undone.0.phase is Done
            &&& undone.1 == w
            &&& !undone.1.has(p.record_path(record.key))
            &&& world::links_ready(record.links, undone.1)
            &&& world::overrides_free(record.services, undone.1)
        }),
{
    world::lemma_enable_preflight(record, p, snapshot, w);
    assert forall|i: int| 0 <= i < record.links.len() implies world::link_ready(
        #[trigger] record.links[i],
        w,
    ) by {
        assert(paths::parent(record.links[i].link) is Some);
    }
    world::lemma_enabling(record, p, contents, stamp, w, -1, failure);
    an_untouched_activation_may_be_undone(record, p, contents, w, later, later_stamp);
    world::deactivation_undoes_activation(
        record,
        p,
        snapshot,
        later,
        contents,
        stamp,
        later_stamp,
        w,
        failure,
    );
}

// ---- Records

/// Whether what was found where records are kept is as it is on a machine.
pub open spec fn finds(facts: Seq<RecordFactsView>, w: World) -> bool {
    forall|i: int|
        0 <= i < facts.len() && (#[trigger] facts[i]).target != TargetKind::Missing ==> w.has(
            facts[i].path,
        )
}

proof fn lemma_no_file(all: Seq<Text>, facts: Seq<RecordFactsView>, w: World)
    requires
        finds(facts, w),
        forall|i: int| 0 <= i < all.len() ==> !w.has(#[trigger] all[i]),
    ensures
        store::first_file(all, facts) is None,
    decreases all.len(),
{
    if all.len() > 0 {
        lemma_facts_found(facts, all[0], w);
        assert forall|i: int| 0 <= i < all.drop_first().len() implies !w.has(
            #[trigger] all.drop_first()[i],
        ) by {
            assert(all.drop_first()[i] == all[i + 1]);
        }
        lemma_no_file(all.drop_first(), facts, w);
    }
}

proof fn lemma_facts_found(facts: Seq<RecordFactsView>, path: Text, w: World)
    requires
        finds(facts, w),
        !w.has(path),
    ensures
        store::record_file(facts, path) is None,
    decreases facts.len(),
{
    if facts.len() > 0 && facts[0].path != path {
        let rest = facts.drop_first();
        assert forall|i: int|
            0 <= i < rest.len() && (#[trigger] rest[i]).target != TargetKind::Missing implies w.has(
            rest[i].path,
        ) by {
            assert(rest[i] == facts[i + 1]);
        }
        lemma_facts_found(rest, path, w);
    }
}

/// A fork of which a machine has no record is not active; after disabling gave the machine
/// back, that is so again.
pub proof fn a_fork_without_a_record_is_not_active(
    m: MetadataView,
    p: PathsView,
    facts: Seq<RecordFactsView>,
    w: World,
)
    requires
        finds(facts, w),
        forall|i: int|
            0 <= i < keys::record_paths_of(m, p).len() ==> !w.has(
                #[trigger] keys::record_paths_of(m, p)[i],
            ),
    ensures
        store::status_of(m, p, facts) == Ok::<Option<RecordView>, Text>(None),
{
    lemma_no_file(keys::record_paths_of(m, p), facts, w);
}

/// The file of a fork's current record is the first of those that may hold one.
proof fn lemma_own_record_path(m: MetadataView, p: PathsView)
    ensures
        keys::record_paths_of(m, p).len() > 0,
        keys::record_paths_of(m, p)[0] == p.record_path(keys::fork_key_of(m)),
{
    assert(keys::record_keys(m)[0] == keys::fork_key_of(m));
}

/// Enabling the links that were planned for a fork without a record, and disabling them
/// with nothing changed in between, succeed and give back the machine as it was; the fork is
/// then not active. A link where the record is kept would be overwritten by it; the paths of
/// an environment rule that out.
pub proof fn disabling_undoes_a_planned_link_activation(
    m: MetadataView,
    workspace: WorkspaceView,
    build_output: Text,
    bin: DirRead,
    active: Option<RecordTree>,
    around: Surroundings,
    snapshot: Snapshot,
    later: Snapshot,
    contents: Text,
    stamp: Text,
    later_stamp: Text,
    facts: Seq<RecordFactsView>,
    w: World,
    failure: FailureView,
)
    requires
        layout::lists_each_name_once(bin.deep_view()),
        forall|i: int|
            0 <= i < keys::record_paths_of(m, around.view_paths()).len() ==> !w.has(
                #[trigger] keys::record_paths_of(m, around.view_paths())[i],
            ),
        plan::shim_plan(m, workspace, build_output, bin, active, around) is Ok,
        ({
            let record = plan::shim_plan(
                m,
                workspace,
                build_output,
                bin,
                active,
                around,
            )->Ok_0;
            let p = around.view_paths();
            let begun = scripts::enabling(record, p, snapshot, contents, stamp);
            &&& layout::links_spare_the_record(record, p)
            &&& world::agrees(record, snapshot, w)
            &&& begun is Ok
            &&& tells_of(record, p, later, world::run(begun->Ok_0, w, -1, failure).1)
            &&& targets_kept(record, later)
        }),
        finds(facts, w),
    ensures
        ({
            let record = plan::shim_plan(
                m,
                workspace,
                build_output,
                bin,
                active,
                around,
            )->Ok_0;
            let p = around.view_paths();
            let made = world::run(
                scripts::enabling(record, p, snapshot, contents, stamp)->Ok_0,
                w,
                -1,
                failure,
            );
            let undone = world::run(
                scripts::disabling(record, p, later, later_stamp)->Ok_0,
                made.1,
                -1,
                failure,
            );
            &&& made.0.phase is Done
            &&& scripts::disabling(record, p, later, later_stamp) is Ok
            &&& undone.0.phase is Done
            &&& undone.1 == w
            &&& world::links_ready(record.links, undone.1)
            &&& store::status_of(m, p, facts) == Ok::<Option<RecordView>, Text>(None)
        }),
{
    let p = around.view_paths();
    let record = plan::shim_plan(m, workspace, build_output, bin, active, around)->Ok_0;
    layout::links_that_may_begin_are_laid_apart(
        m,
        workspace,
        build_output,
        bin,
        active,
        around,
        snapshot,
        contents,
        stamp,
        w,
    );
    lemma_own_record_path(m, p);
    assert(!w.has(keys::record_paths_of(m, p)[0]));
    disabling_gives_back_what_enabling_displaced(
        record,
        p,
        snapshot,
        later,
        contents,
        stamp,
        later_stamp,
        w,
        failure,
    );
    a_fork_without_a_record_is_not_active(m, p, facts, w);
}

// ---- Profiles

/// Installing a fork in a profile that does not provide it yet, writing the record, and
/// disabling give back the machine as it was: the profile provides the fork in between, and
/// no more afterwards, and the record is gone.
pub proof fn disabling_takes_a_profile_entry_out_again(
    record: RecordView,
    p: PathsView,
    later: Snapshot,
    contents: Text,
    stamp: Text,
    later_stamp: Text,
    w: World,
    failure: FailureView,
)
    requires
        record.links.len() == 0,
        record.services.len() == 0,
        record.profiles.len() == 1,
        record.modules.len() == 0,
        !w.provides(record.profiles[0].profile, record.profiles[0].store_path),
        !w.has(p.record_path(record.key)),
        later.has_file(p.record_path(record.key)),
    ensures
        ({
            let own = p.record_path(record.key);
            let entry = record.profiles[0];
            let installed = world::run(
                scripts::installing(record, stamp)->Ok_0,
                w,
                -1,
                failure,
            );
            let kept = scripts::with_element_of(record, installed.0.found);
            let written = world::run(
                transaction::begun(
                    Direction::Activation,
                    scripts::record_steps(kept.key, p, contents, stamp),
                    stamp,
                ).settled(),
                installed.1,
                -1,
                failure,
            );
            let undone = world::run(
                scripts::disabling(kept, p, later, later_stamp)->Ok_0,
                written.1,
                -1,
                failure,
            );
            &&& scripts::installing(record, stamp) is Ok
            &&& installed.0.phase is Done
            &&& installed.0.found is Some
            &&& installed.1.provides(entry.profile, entry.store_path)
            &&& written.0.phase is Done
            &&& written.1 == installed.1.put(own, Node::File { text: contents })
            &&& scripts::disabling(kept, p, later, later_stamp) is Ok
            &&& undone.0.phase is Done
            &&& undone.1 == w
        }),
{
    let own = p.record_path(record.key);
    let entry = record.profiles[0];
    let key = (entry.profile, world::place(entry.store_path));
    let steps = scripts::install_steps(entry);
    let s = transaction::begun(Direction::Activation, steps, stamp);
    let more = World { installed: w.installed.insert(key), ..w };
    world::lemma_take(s, w, -1, failure);
    let s1 = s.after_success(world::done());
    assert(s1.steps =~= seq![steps[1]]);
    world::lemma_take(s1, more, -2, failure);
    world::lemma_listing(more, entry.profile, entry.store_path);
    let listed = world::answer(
        false,
        Seq::empty(),
        world::listing_in(more, entry.profile, entry.store_path),
    );
    let s2 = s1.after_success(listed);
    assert(s2.steps =~= Seq::empty());
    world::lemma_turn(s2);
    world::lemma_over(s2.turned(), more, -3, failure);
    let kept = scripts::with_element_of(record, s2.found);
    let begun = transaction::begun(
        Direction::Activation,
        scripts::record_steps(kept.key, p, contents, stamp),
        stamp,
    );
    assert(world::on_the_way(begun, more, more));
    world::lemma_record_written(kept.key, p, contents, begun, more, more, -1, failure);
    let full = more.put(own, Node::File { text: contents });
    text::lemma_none_refused(
        kept.links,
        |link: LinkView| preflight::unlink_refusal(link, later),
    );
    text::lemma_none_refused(
        kept.services,
        |service: ServiceView| preflight::release_refusal(service, later),
    );
    world::lemma_disabling(kept, p, later_stamp, full, -1, failure);
    assert(world::undoable(kept.links, kept.services, own, full));
    let removed = world::profile_disabled(kept.profiles[0], full);
    assert(kept.profiles.drop_first() =~= Seq::empty());
    assert(world::profiles_disabled(kept.profiles.drop_first(), removed) == removed);
    assert(world::disabled(kept, p, full) == removed.without(own));
    assert(removed.installed =~= w.installed);
    assert(removed.without(own).files =~= w.files);
}

} // verus!
