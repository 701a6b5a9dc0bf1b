//! Which paths a snapshot has to tell of before something is decided about a record.
use vstd::prelude::*;

use crate::activation::check;
use crate::activation::keys::{ActivationPaths, PathsView};
use crate::activation::preflight;
use crate::activation::profiles::{self, ListingView};
use crate::activation::records::{
    ActivationRecord, LinkRecord, LinkView, ModuleView, PreviousLink, PreviousView, ProfileView,
    RecordView, ServiceRecord, ServiceView,
};
use crate::activation::scripts;
use crate::copying::Copied;
use crate::paths::{self, join};
use crate::snapshot::{self, Snapshot};
use crate::text::{self, push_line, push_lines, Text};

verus! {

/// The paths that count for one link.
pub open spec fn link_places(link: LinkView) -> Seq<Text> {
    seq![link.link, link.target] + match link.previous {
        PreviousView::Absent => Seq::empty(),
        PreviousView::BackedUp { backup } => seq![backup],
    }
}

/// The paths that count for one service.
pub open spec fn service_places(service: ServiceView) -> Seq<Text> {
    seq![service.service_file, service.override_path, service.target]
}

/// The paths that count for one module.
pub open spec fn module_places(module: ModuleView) -> Seq<Text> {
    seq![module.overlay, module.module]
}

pub open spec fn all_link_places(links: Seq<LinkView>) -> Seq<Text> {
    text::flat_map(links, |link: LinkView| link_places(link))
}

pub open spec fn all_service_places(services: Seq<ServiceView>) -> Seq<Text> {
    text::flat_map(services, |service: ServiceView| service_places(service))
}

pub open spec fn all_module_places(modules: Seq<ModuleView>) -> Seq<Text> {
    text::flat_map(modules, |module: ModuleView| module_places(module))
}

/// The paths that count for a record.
pub open spec fn record_places_of(record: RecordView, p: PathsView) -> Seq<Text> {
    seq![
        p.record_path(record.key),
        paths::joined(record.workspace, "forkpkg.toml"@),
        record.source,
        record.build_output,
    ] + all_link_places(record.links) + all_service_places(record.services) + all_module_places(
        record.modules,
    )
}

fn places_of_link(link: &LinkRecord) -> (r: Vec<String>)
    ensures
        r.deep_view() == link_places(link.deep_view()),
{
    let mut r: Vec<String> = Vec::new();
    push_line(&mut r, link.link.clone());
    push_line(&mut r, link.target.clone());
    if let PreviousLink::BackedUp { backup } = &link.previous {
        push_line(&mut r, backup.clone());
    }
    assert(r.deep_view() =~= link_places(link.deep_view()));
    r
}

fn places_of_service(service: &ServiceRecord) -> (r: Vec<String>)
    ensures
        r.deep_view() == service_places(service.deep_view()),
{
    let mut r: Vec<String> = Vec::new();
    push_line(&mut r, service.service_file.clone());
    push_line(&mut r, service.override_path.clone());
    push_line(&mut r, service.target.clone());
    assert(r.deep_view() =~= service_places(service.deep_view()));
    r
}

fn push_link_places(record: &ActivationRecord, r: &mut Vec<String>)
    ensures
        final(r).deep_view() == old(r).deep_view() + all_link_places(record.deep_view().links),
{
    let ghost all = record.deep_view().links;
    let ghost f = |link: LinkView| link_places(link);
    let ghost head = r.deep_view();
    let mut i: usize = 0;
    assert(r.deep_view() =~= head + text::flat_map(all.take(0), f));
    while i < record.links.len()
        invariant
            i <= record.links@.len(),
            all == record.deep_view().links,
            all.len() == record.links@.len(),
            f == (|link: LinkView| link_places(link)),
            r.deep_view() == head + text::flat_map(all.take(i as int), f),
        decreases record.links@.len() - i,
    {
        push_lines(r, places_of_link(&record.links[i]));
        proof {
            text::lemma_flat_map_step(all, f, i as int);
            assert(all[i as int] == record.links@[i as int].deep_view());
            assert(r.deep_view() =~= head + text::flat_map(all.take(i + 1), f));
        }
        i += 1;
    }
    assert(all.take(all.len() as int) =~= all);
}

fn push_service_places(record: &ActivationRecord, r: &mut Vec<String>)
    ensures
        final(r).deep_view() == old(r).deep_view() + all_service_places(
            record.deep_view().services,
        ),
{
    let ghost all = record.deep_view().services;
    let ghost f = |service: ServiceView| service_places(service);
    let ghost head = r.deep_view();
    let mut i: usize = 0;
    assert(r.deep_view() =~= head + text::flat_map(all.take(0), f));
    while i < record.services.len()
        invariant
            i <= record.services@.len(),
            all == record.deep_view().services,
            all.len() == record.services@.len(),
            f == (|service: ServiceView| service_places(service)),
            r.deep_view() == head + text::flat_map(all.take(i as int), f),
        decreases record.services@.len() - i,
    {
        push_lines(r, places_of_service(&record.services[i]));
        proof {
            text::lemma_flat_map_step(all, f, i as int);
            assert(all[i as int] == record.services@[i as int].deep_view());
            assert(r.deep_view() =~= head + text::flat_map(all.take(i + 1), f));
        }
        i += 1;
    }
    assert(all.take(all.len() as int) =~= all);
}

fn push_module_places(record: &ActivationRecord, r: &mut Vec<String>)
    ensures
        final(r).deep_view() == old(r).deep_view() + all_module_places(record.deep_view().modules),
{
    let ghost all = record.deep_view().modules;
    let ghost f = |module: ModuleView| module_places(module);
    let ghost head = r.deep_view();
    let mut i: usize = 0;
    assert(r.deep_view() =~= head + text::flat_map(all.take(0), f));
    while i < record.modules.len()
        invariant
            i <= record.modules@.len(),
            all == record.deep_view().modules,
            all.len() == record.modules@.len(),
            f == (|module: ModuleView| module_places(module)),
            r.deep_view() == head + text::flat_map(all.take(i as int), f),
        decreases record.modules@.len() - i,
    {
        push_line(r, record.modules[i].overlay.clone());
        push_line(r, record.modules[i].module.clone());
        proof {
            text::lemma_flat_map_step(all, f, i as int);
            assert(all[i as int] == record.modules@[i as int].deep_view());
            assert(r.deep_view() =~= head + text::flat_map(all.take(i + 1), f));
        }
        i += 1;
    }
    assert(all.take(all.len() as int) =~= all);
}

/// The paths to look at before a record is enabled, disabled or checked.
pub fn record_places(record: &ActivationRecord, paths: &ActivationPaths) -> (r: Vec<String>)
    ensures
        r.deep_view() == record_places_of(record.deep_view(), paths.deep_view()),
{
    let mut r: Vec<String> = Vec::new();
    push_line(&mut r, paths.record_path(record));
    push_line(&mut r, join(record.workspace.as_str(), "forkpkg.toml"));
    push_line(&mut r, record.source.clone());
    push_line(&mut r, record.build_output.clone());
    push_link_places(record, &mut r);
    push_service_places(record, &mut r);
    push_module_places(record, &mut r);
    assert(r.deep_view() =~= record_places_of(record.deep_view(), paths.deep_view()));
    r
}

/// The profiles that count for a record.
pub open spec fn record_profiles_of(record: RecordView) -> Seq<Option<Text>> {
    record.profiles.map_values(|profile: ProfileView| profile.profile)
}

/// The profiles to list before a record is checked.
pub fn record_profiles(record: &ActivationRecord) -> (r: Vec<Option<String>>)
    ensures
        r.deep_view() == record_profiles_of(record.deep_view()),
{
    let ghost all = record_profiles_of(record.deep_view());
    let mut r: Vec<Option<String>> = Vec::new();
    let mut i: usize = 0;
    assert(r.deep_view() =~= all.take(0));
    while i < record.profiles.len()
        invariant
            i <= record.profiles@.len(),
            all == record_profiles_of(record.deep_view()),
            all.len() == record.profiles@.len(),
            r.deep_view() == all.take(i as int),
        decreases record.profiles@.len() - i,
    {
        let profile = record.profiles[i].profile.copied();
        let ghost before = r.deep_view();
        assert(all[i as int] == profile.deep_view());
        r.push(profile);
        assert(r.deep_view() =~= before.push(profile.deep_view()));
        assert(r.deep_view() =~= all.take(i + 1));
        i += 1;
    }
    assert(all.take(all.len() as int) =~= all);
    r
}

// ---- Nothing else counts

proof fn lemma_base_places(record: RecordView, p: PathsView)
    ensures
        record_places_of(record, p).contains(p.record_path(record.key)),
        record_places_of(record, p).contains(paths::joined(record.workspace, "forkpkg.toml"@)),
        record_places_of(record, p).contains(record.source),
        record_places_of(record, p).contains(record.build_output),
{
    let all = record_places_of(record, p);
    assert(all[0] == p.record_path(record.key));
    assert(all[1] == paths::joined(record.workspace, "forkpkg.toml"@));
    assert(all[2] == record.source);
    assert(all[3] == record.build_output);
}

proof fn lemma_in_part(a: Seq<Text>, b: Seq<Text>, c: Seq<Text>, path: Text)
    requires
        b.contains(path),
    ensures
        (a + b + c).contains(path),
{
    let k = choose|k: int| 0 <= k < b.len() && b[k] == path;
    assert((a + b + c)[a.len() + k] == path);
}

proof fn lemma_link_places(record: RecordView, p: PathsView, i: int)
    requires
        0 <= i < record.links.len(),
    ensures
        forall|path: Text| #[trigger]
            link_places(record.links[i]).contains(path) ==> record_places_of(record, p).contains(
                path,
            ),
{
    assert forall|path: Text| #[trigger] link_places(record.links[i]).contains(
        path,
    ) implies record_places_of(record, p).contains(path) by {
        text::lemma_flat_map_contains(
            record.links,
            |link: LinkView| link_places(link),
            i,
            path,
        );
        let head = seq![
            p.record_path(record.key),
            paths::joined(record.workspace, "forkpkg.toml"@),
            record.source,
            record.build_output,
        ];
        let links = all_link_places(record.links);
        let rest = all_service_places(record.services) + all_module_places(record.modules);
        lemma_in_part(head, links, rest, path);
        assert(record_places_of(record, p) =~= head + links + rest);
    }
}

proof fn lemma_service_places(record: RecordView, p: PathsView, i: int)
    requires
        0 <= i < record.services.len(),
    ensures
        forall|path: Text| #[trigger]
            service_places(record.services[i]).contains(path) ==> record_places_of(
                record,
                p,
            ).contains(path),
{
    assert forall|path: Text| #[trigger] service_places(record.services[i]).contains(
        path,
    ) implies record_places_of(record, p).contains(path) by {
        text::lemma_flat_map_contains(
            record.services,
            |service: ServiceView| service_places(service),
            i,
            path,
        );
        let head = seq![
            p.record_path(record.key),
            paths::joined(record.workspace, "forkpkg.toml"@),
            record.source,
            record.build_output,
        ] + all_link_places(record.links);
        lemma_in_part(
            head,
            all_service_places(record.services),
            all_module_places(record.modules),
            path,
        );
    }
}

proof fn lemma_module_places(record: RecordView, p: PathsView, i: int)
    requires
        0 <= i < record.modules.len(),
    ensures
        forall|path: Text| #[trigger]
            module_places(record.modules[i]).contains(path) ==> record_places_of(
                record,
                p,
            ).contains(path),
{
    assert forall|path: Text| #[trigger] module_places(record.modules[i]).contains(
        path,
    ) implies record_places_of(record, p).contains(path) by {
        text::lemma_flat_map_contains(
            record.modules,
            |module: ModuleView| module_places(module),
            i,
            path,
        );
        let modules = all_module_places(record.modules);
        let head = seq![
            p.record_path(record.key),
            paths::joined(record.workspace, "forkpkg.toml"@),
            record.source,
            record.build_output,
        ] + all_link_places(record.links) + all_service_places(record.services);
        lemma_in_part(head, modules, Seq::empty(), path);
        assert(record_places_of(record, p) =~= head + modules + Seq::<Text>::empty());
    }
}

proof fn lemma_link_told_alike(
    record: RecordView,
    p: PathsView,
    a: Snapshot,
    b: Snapshot,
    i: int,
)
    requires
        snapshot::told_alike(a, b, record_places_of(record, p)),
        0 <= i < record.links.len(),
    ensures
        a.at(record.links[i].link) == b.at(record.links[i].link),
        a.at(record.links[i].target) == b.at(record.links[i].target),
        record.links[i].previous matches PreviousView::BackedUp { backup } ==> a.at(backup)
            == b.at(backup),
{
    let places = link_places(record.links[i]);
    lemma_link_places(record, p, i);
    assert(places[0] == record.links[i].link);
    assert(places[1] == record.links[i].target);
    if let PreviousView::BackedUp { backup } = record.links[i].previous {
        assert(places[2] == backup);
        assert(places.contains(backup));
    }
    assert(places.contains(record.links[i].link) && places.contains(record.links[i].target));
}

proof fn lemma_service_told_alike(
    record: RecordView,
    p: PathsView,
    a: Snapshot,
    b: Snapshot,
    i: int,
)
    requires
        snapshot::told_alike(a, b, record_places_of(record, p)),
        0 <= i < record.services.len(),
    ensures
        a.at(record.services[i].service_file) == b.at(record.services[i].service_file),
        a.at(record.services[i].override_path) == b.at(record.services[i].override_path),
        a.at(record.services[i].target) == b.at(record.services[i].target),
{
    let service = record.services[i];
    let places = service_places(service);
    lemma_service_places(record, p, i);
    assert(places[0] == service.service_file);
    assert(places[1] == service.override_path);
    assert(places[2] == service.target);
    assert(places.contains(service.service_file) && places.contains(service.override_path)
        && places.contains(service.target));
}

proof fn lemma_module_told_alike(
    record: RecordView,
    p: PathsView,
    a: Snapshot,
    b: Snapshot,
    i: int,
)
    requires
        snapshot::told_alike(a, b, record_places_of(record, p)),
        0 <= i < record.modules.len(),
    ensures
        a.at(record.modules[i].overlay) == b.at(record.modules[i].overlay),
        a.at(record.modules[i].module) == b.at(record.modules[i].module),
{
    let module = record.modules[i];
    let places = module_places(module);
    lemma_module_places(record, p, i);
    assert(places[0] == module.overlay);
    assert(places[1] == module.module);
    assert(places.contains(module.overlay) && places.contains(module.module));
}

/// Whether a record may be enabled, and whether it may be disabled, depends on the record's
/// places alone.
pub proof fn the_places_of_a_record_decide(
    record: RecordView,
    p: PathsView,
    a: Snapshot,
    b: Snapshot,
    contents: Text,
    stamp: Text,
)
    requires
        snapshot::told_alike(a, b, record_places_of(record, p)),
    ensures
        scripts::enabling(record, p, a, contents, stamp) == scripts::enabling(
            record,
            p,
            b,
            contents,
            stamp,
        ),
        scripts::disabling(record, p, a, stamp) == scripts::disabling(record, p, b, stamp),
{
    lemma_base_places(record, p);
    assert forall|i: int| 0 <= i < record.links.len() implies {
        &&& preflight::link_refusal(#[trigger] record.links[i], a) == preflight::link_refusal(
            record.links[i],
            b,
        )
        &&& preflight::unlink_refusal(record.links[i], a) == preflight::unlink_refusal(
            record.links[i],
            b,
        )
    } by {
        lemma_link_told_alike(record, p, a, b, i);
    }
    assert forall|i: int| 0 <= i < record.services.len() implies {
        &&& preflight::service_refusal(#[trigger] record.services[i], a)
            == preflight::service_refusal(record.services[i], b)
        &&& preflight::release_refusal(record.services[i], a) == preflight::release_refusal(
            record.services[i],
            b,
        )
    } by {
        lemma_service_told_alike(record, p, a, b, i);
    }
    text::lemma_refused_alike(
        record.links,
        |link: LinkView| preflight::link_refusal(link, a),
        |link: LinkView| preflight::link_refusal(link, b),
    );
    text::lemma_refused_alike(
        record.links,
        |link: LinkView| preflight::unlink_refusal(link, a),
        |link: LinkView| preflight::unlink_refusal(link, b),
    );
    text::lemma_refused_alike(
        record.services,
        |service: ServiceView| preflight::service_refusal(service, a),
        |service: ServiceView| preflight::service_refusal(service, b),
    );
    text::lemma_refused_alike(
        record.services,
        |service: ServiceView| preflight::release_refusal(service, a),
        |service: ServiceView| preflight::release_refusal(service, b),
    );
}

/// Whether two gatherings of listings tell the same of each of the profiles.
pub open spec fn listed_alike(
    a: Seq<ListingView>,
    b: Seq<ListingView>,
    wanted: Seq<Option<Text>>,
) -> bool {
    forall|profile: Option<Text>| #[trigger]
        wanted.contains(profile) ==> profiles::listing_for(a, profile) == profiles::listing_for(
            b,
            profile,
        )
}

/// What is wrong with an activation depends on its record's places and on the listings of
/// its profiles alone.
pub proof fn the_places_of_a_record_are_checked(
    record: RecordView,
    p: PathsView,
    a: Snapshot,
    b: Snapshot,
    listings: Seq<ListingView>,
    others: Seq<ListingView>,
)
    requires
        snapshot::told_alike(a, b, record_places_of(record, p)),
        listed_alike(listings, others, record_profiles_of(record)),
    ensures
        check::record_problems(record, a, listings) == check::record_problems(record, b, others),
{
    lemma_base_places(record, p);
    let wanted = record_profiles_of(record);
    assert forall|i: int| 0 <= i < record.profiles.len() implies check::profile_problems(
        #[trigger] record.profiles[i],
        listings,
    ) == check::profile_problems(record.profiles[i], others) by {
        assert(wanted[i] == record.profiles[i].profile);
        assert(wanted.contains(record.profiles[i].profile));
    }
    text::lemma_flat_map_alike(
        record.profiles,
        |profile: ProfileView| check::profile_problems(profile, listings),
        |profile: ProfileView| check::profile_problems(profile, others),
    );
    assert forall|i: int| 0 <= i < record.links.len() implies check::link_problems(
        #[trigger] record.links[i],
        a,
    ) == check::link_problems(record.links[i], b) by {
        lemma_link_told_alike(record, p, a, b, i);
    }
    assert forall|i: int| 0 <= i < record.services.len() implies check::service_problems(
        #[trigger] record.services[i],
        a,
    ) == check::service_problems(record.services[i], b) by {
        lemma_service_told_alike(record, p, a, b, i);
    }
    assert forall|i: int| 0 <= i < record.modules.len() implies check::module_problems(
        #[trigger] record.modules[i],
        a,
    ) == check::module_problems(record.modules[i], b) by {
        lemma_module_told_alike(record, p, a, b, i);
    }
    text::lemma_flat_map_alike(
        record.links,
        |link: LinkView| check::link_problems(link, a),
        |link: LinkView| check::link_problems(link, b),
    );
    text::lemma_flat_map_alike(
        record.services,
        |service: ServiceView| check::service_problems(service, a),
        |service: ServiceView| check::service_problems(service, b),
    );
    text::lemma_flat_map_alike(
        record.modules,
        |module: ModuleView| check::module_problems(module, a),
        |module: ModuleView| check::module_problems(module, b),
    );
    assert(check::base_problems(record, a) =~= check::base_problems(record, b));
}

} // verus!
