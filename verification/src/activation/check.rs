//! What is wrong with an activation that a record describes.
use vstd::prelude::*;

use crate::activation::profiles::{
    self, listed_profile_contains, ListingView, ProfileListing,
};
use crate::activation::records::{
    ActivationCheck, ActivationRecord, CheckView, LinkRecord, LinkView, ModuleRecord, ModuleView,
    PreviousLink, PreviousView, ProfileRecord, ProfileView, RecordView, ServiceRecord, ServiceView,
};
use crate::paths::{self, join, paths_match};
use crate::snapshot::{ContentRead, LinkRead, LinkReadView, Snapshot};
use crate::text::{self, cat2, cat4, cat5, cat6, contains, push_line, push_lines, same, Text};

verus! {

/// What is wrong with an activated file: it is gone, or its contents changed.
pub open spec fn target_problems(
    target: Text,
    expected: Option<Text>,
    snapshot: Snapshot,
) -> Seq<Text> {
    if !snapshot.has(target) {
        seq!["target is missing: "@ + target]
    } else {
        match expected {
            None => Seq::empty(),
            Some(expected) => match snapshot.digest_or_step(target) {
                Ok(actual) => text::only_if(
                    actual != expected,
                    "target hash mismatch for "@ + target + ": expected "@ + expected + ", got "@
                        + actual,
                ),
                Err(step) => seq!["failed to hash target "@ + target + ": "@ + step],
            },
        }
    }
}

fn check_target(
    target: &str,
    expected: &Option<String>,
    snapshot: &Snapshot,
    problems: &mut Vec<String>,
)
    ensures
        final(problems).deep_view() == old(problems).deep_view() + target_problems(
            target@,
            expected.deep_view(),
            *snapshot,
        ),
{
    let ghost before = problems.deep_view();
    if !snapshot.is_present(target) {
        push_line(problems, cat2("target is missing: ", target));
    } else if let Some(expected) = expected {
        match snapshot.hash_step(target) {
            Ok(actual) => {
                if !same(actual.as_str(), expected.as_str()) {
                    push_line(
                        problems,
                        cat6(
                            "target hash mismatch for ",
                            target,
                            ": expected ",
                            expected.as_str(),
                            ", got ",
                            actual.as_str(),
                        ),
                    );
                }
            },
            Err(error) => {
                push_line(
                    problems,
                    cat4("failed to hash target ", target, ": ", error.message.as_str()),
                );
            },
        }
    }
    assert(problems.deep_view() =~= before + target_problems(
        target@,
        expected.deep_view(),
        *snapshot,
    ));
}

pub open spec fn link_read_problems(link: LinkView, snapshot: Snapshot) -> Seq<Text> {
    match snapshot.at(link.link).link {
        LinkReadView::Target { path } => text::only_if(
            !paths::same_path(path, link.target),
            link.link + " points to "@ + path + ", expected "@ + link.target,
        ),
        LinkReadView::Absent => seq!["active link is missing: "@ + link.link],
        LinkReadView::Failed { problem } => seq![
            "active link is not readable as forkpkg symlink: "@ + link.link + " ("@ + problem
                + ")"@,
        ],
    }
}

pub open spec fn backup_problems(previous: PreviousView, snapshot: Snapshot) -> Seq<Text> {
    match previous {
        PreviousView::Absent => Seq::empty(),
        PreviousView::BackedUp { backup } => text::only_if(
            !snapshot.has(backup),
            "backup is missing: "@ + backup,
        ),
    }
}

pub open spec fn link_problems(link: LinkView, snapshot: Snapshot) -> Seq<Text> {
    link_read_problems(link, snapshot) + target_problems(link.target, link.target_blake3, snapshot)
        + backup_problems(link.previous, snapshot)
}

fn check_link(link: &LinkRecord, snapshot: &Snapshot) -> (r: Vec<String>)
    ensures
        r.deep_view() == link_problems(link.deep_view(), *snapshot),
{
    let mut r: Vec<String> = Vec::new();
    match snapshot.read_link(link.link.as_str()) {
        LinkRead::Target { path } => {
            if !paths_match(path.as_str(), link.target.as_str()) {
                push_line(
                    &mut r,
                    cat5(
                        link.link.as_str(),
                        " points to ",
                        path.as_str(),
                        ", expected ",
                        link.target.as_str(),
                    ),
                );
            }
        },
        LinkRead::Absent => {
            push_line(&mut r, cat2("active link is missing: ", link.link.as_str()));
        },
        LinkRead::Failed { problem } => {
            push_line(
                &mut r,
                cat5(
                    "active link is not readable as forkpkg symlink: ",
                    link.link.as_str(),
                    " (",
                    problem.as_str(),
                    ")",
                ),
            );
        },
    }
    assert(r.deep_view() =~= link_read_problems(link.deep_view(), *snapshot));
    check_target(link.target.as_str(), &link.target_blake3, snapshot, &mut r);
    let ghost before = r.deep_view();
    if let PreviousLink::BackedUp { backup } = &link.previous {
        if !snapshot.is_present(backup.as_str()) {
            push_line(&mut r, cat2("backup is missing: ", backup.as_str()));
        }
    }
    assert(r.deep_view() =~= before + backup_problems(link.previous.deep_view(), *snapshot));
    r
}

pub open spec fn override_problems(service: ServiceView, snapshot: Snapshot) -> Seq<Text> {
    if !snapshot.has_file(service.override_path) {
        seq!["systemd override is missing: "@ + service.override_path]
    } else {
        match snapshot.at(service.override_path).text {
            Ok(contents) => text::only_if(
                !text::occurs(contents, service.exec_start),
                "systemd override no longer points to "@ + service.exec_start,
            ),
            Err(problem) => seq![
                "failed to read systemd override "@ + service.override_path + ": "@ + problem,
            ],
        }
    }
}

pub open spec fn service_problems(service: ServiceView, snapshot: Snapshot) -> Seq<Text> {
    text::only_if(
        !snapshot.has(service.service_file),
        "service file is missing: "@ + service.service_file,
    ) + override_problems(service, snapshot) + target_problems(
        service.target,
        service.target_blake3,
        snapshot,
    )
}

fn check_service(service: &ServiceRecord, snapshot: &Snapshot) -> (r: Vec<String>)
    ensures
        r.deep_view() == service_problems(service.deep_view(), *snapshot),
{
    let mut r: Vec<String> = Vec::new();
    if !snapshot.is_present(service.service_file.as_str()) {
        push_line(&mut r, cat2("service file is missing: ", service.service_file.as_str()));
    }
    let ghost before = r.deep_view();
    assert(before =~= text::only_if(
        !snapshot.has(service.service_file@),
        "service file is missing: "@ + service.service_file@,
    ));
    if !snapshot.is_file(service.override_path.as_str()) {
        push_line(&mut r, cat2("systemd override is missing: ", service.override_path.as_str()));
    } else {
        match snapshot.read_text(service.override_path.as_str()) {
            ContentRead::Read { text } => {
                if !contains(text.as_str(), service.exec_start.as_str()) {
                    push_line(
                        &mut r,
                        cat2("systemd override no longer points to ", service.exec_start.as_str()),
                    );
                }
            },
            ContentRead::Failed { problem } => {
                push_line(
                    &mut r,
                    cat4(
                        "failed to read systemd override ",
                        service.override_path.as_str(),
                        ": ",
                        problem.as_str(),
                    ),
                );
            },
        }
    }
    assert(r.deep_view() =~= before + override_problems(service.deep_view(), *snapshot));
    check_target(service.target.as_str(), &service.target_blake3, snapshot, &mut r);
    r
}

pub open spec fn profile_problems(profile: ProfileView, listings: Seq<ListingView>) -> Seq<Text> {
    match profiles::listing_has(
        profiles::listing_for(listings, profile.profile),
        profile.store_path,
    ) {
        Ok(installed) => text::only_if(
            !installed,
            "Nix profile does not contain "@ + profile.store_path,
        ),
        Err(problem) => seq!["failed to inspect Nix profile: "@ + problem],
    }
}

fn check_profile(profile: &ProfileRecord, listings: &Vec<ProfileListing>) -> (r: Vec<String>)
    ensures
        r.deep_view() == profile_problems(profile.deep_view(), listings.deep_view()),
{
    let mut r: Vec<String> = Vec::new();
    match listed_profile_contains(listings, &profile.profile, profile.store_path.as_str()) {
        Ok(installed) => {
            if !installed {
                push_line(
                    &mut r,
                    cat2("Nix profile does not contain ", profile.store_path.as_str()),
                );
            }
        },
        Err(error) => {
            push_line(&mut r, cat2("failed to inspect Nix profile: ", error.message.as_str()));
        },
    }
    assert(r.deep_view() =~= profile_problems(profile.deep_view(), listings.deep_view()));
    r
}

pub open spec fn module_file_problems(module: Text, snapshot: Snapshot) -> Seq<Text> {
    if !snapshot.has_file(module) {
        seq!["Nix module is missing: "@ + module]
    } else {
        match snapshot.at(module).text {
            Ok(contents) => text::only_if(
                !text::occurs(contents, "forkpkg: enabled"@),
                "Nix module is not marked enabled: "@ + module,
            ),
            Err(problem) => seq!["failed to read Nix module "@ + module + ": "@ + problem],
        }
    }
}

pub open spec fn module_problems(module: ModuleView, snapshot: Snapshot) -> Seq<Text> {
    text::only_if(!snapshot.has_file(module.overlay), "Nix overlay is missing: "@ + module.overlay)
        + module_file_problems(module.module, snapshot)
}

fn check_module(module: &ModuleRecord, snapshot: &Snapshot) -> (r: Vec<String>)
    ensures
        r.deep_view() == module_problems(module.deep_view(), *snapshot),
{
    let mut r: Vec<String> = Vec::new();
    if !snapshot.is_file(module.overlay.as_str()) {
        push_line(&mut r, cat2("Nix overlay is missing: ", module.overlay.as_str()));
    }
    let ghost before = r.deep_view();
    if !snapshot.is_file(module.module.as_str()) {
        push_line(&mut r, cat2("Nix module is missing: ", module.module.as_str()));
    } else {
        match snapshot.read_text(module.module.as_str()) {
            ContentRead::Read { text } => {
                if !contains(text.as_str(), "forkpkg: enabled") {
                    push_line(
                        &mut r,
                        cat2("Nix module is not marked enabled: ", module.module.as_str()),
                    );
                }
            },
            ContentRead::Failed { problem } => {
                push_line(
                    &mut r,
                    cat4(
                        "failed to read Nix module ",
                        module.module.as_str(),
                        ": ",
                        problem.as_str(),
                    ),
                );
            },
        }
    }
    assert(r.deep_view() =~= before + module_file_problems(module.module@, *snapshot));
    assert(before =~= text::only_if(
        !snapshot.has_file(module.overlay@),
        "Nix overlay is missing: "@ + module.overlay@,
    ));
    r
}

/// What is wrong with the record itself and with what it was made from.
pub open spec fn base_problems(record: RecordView, snapshot: Snapshot) -> Seq<Text> {
    text::only_if(record.key.len() == 0, "activation record key is missing"@) + text::only_if(
        !snapshot.has_file(paths::joined(record.workspace, "forkpkg.toml"@)),
        "workspace metadata is missing: "@ + paths::joined(record.workspace, "forkpkg.toml"@),
    ) + text::only_if(
        !snapshot.has_dir(record.source),
        "source directory is missing: "@ + record.source,
    ) + text::only_if(
        !snapshot.has(record.build_output),
        "build output is missing: "@ + record.build_output,
    )
}

fn check_base(record: &ActivationRecord, snapshot: &Snapshot) -> (r: Vec<String>)
    ensures
        r.deep_view() == base_problems(record.deep_view(), *snapshot),
{
    let mut r: Vec<String> = Vec::new();
    if record.key.as_str().is_empty() {
        push_line(&mut r, "activation record key is missing".to_owned());
    }
    let metadata = join(record.workspace.as_str(), "forkpkg.toml");
    if !snapshot.is_file(metadata.as_str()) {
        push_line(&mut r, cat2("workspace metadata is missing: ", metadata.as_str()));
    }
    if !snapshot.is_dir(record.source.as_str()) {
        push_line(&mut r, cat2("source directory is missing: ", record.source.as_str()));
    }
    if !snapshot.is_present(record.build_output.as_str()) {
        push_line(&mut r, cat2("build output is missing: ", record.build_output.as_str()));
    }
    assert(r.deep_view() =~= base_problems(record.deep_view(), *snapshot));
    r
}

pub open spec fn links_problems(links: Seq<LinkView>, snapshot: Snapshot) -> Seq<Text> {
    text::flat_map(links, |link: LinkView| link_problems(link, snapshot))
}

pub open spec fn services_problems(services: Seq<ServiceView>, snapshot: Snapshot) -> Seq<Text> {
    text::flat_map(services, |service: ServiceView| service_problems(service, snapshot))
}

pub open spec fn profiles_problems(
    installed: Seq<ProfileView>,
    listings: Seq<ListingView>,
) -> Seq<Text> {
    text::flat_map(installed, |profile: ProfileView| profile_problems(profile, listings))
}

pub open spec fn modules_problems(modules: Seq<ModuleView>, snapshot: Snapshot) -> Seq<Text> {
    text::flat_map(modules, |module: ModuleView| module_problems(module, snapshot))
}

/// Everything that is wrong with an activation, in the order in which it is told.
pub open spec fn record_problems(
    record: RecordView,
    snapshot: Snapshot,
    listings: Seq<ListingView>,
) -> Seq<Text> {
    base_problems(record, snapshot) + links_problems(record.links, snapshot) + services_problems(
        record.services,
        snapshot,
    ) + profiles_problems(record.profiles, listings) + modules_problems(record.modules, snapshot)
}

fn check_links(links: &Vec<LinkRecord>, snapshot: &Snapshot) -> (r: Vec<String>)
    ensures
        r.deep_view() == links_problems(links.deep_view(), *snapshot),
{
    let ghost all = links.deep_view();
    let ghost f = |link: LinkView| link_problems(link, *snapshot);
    let mut r: Vec<String> = Vec::new();
    let mut i: usize = 0;
    assert(r.deep_view() =~= text::flat_map(all.take(0), f));
    while i < links.len()
        invariant
            i <= links@.len(),
            all == links.deep_view(),
            all.len() == links@.len(),
            f == (|link: LinkView| link_problems(link, *snapshot)),
            r.deep_view() == text::flat_map(all.take(i as int), f),
        decreases links@.len() - i,
    {
        push_lines(&mut r, check_link(&links[i], snapshot));
        proof {
            text::lemma_flat_map_step(all, f, i as int);
            assert(all[i as int] == links@[i as int].deep_view());
        }
        i += 1;
    }
    assert(all.take(all.len() as int) =~= all);
    r
}

fn check_services(services: &Vec<ServiceRecord>, snapshot: &Snapshot) -> (r: Vec<String>)
    ensures
        r.deep_view() == services_problems(services.deep_view(), *snapshot),
{
    let ghost all = services.deep_view();
    let ghost f = |service: ServiceView| service_problems(service, *snapshot);
    let mut r: Vec<String> = Vec::new();
    let mut i: usize = 0;
    assert(r.deep_view() =~= text::flat_map(all.take(0), f));
    while i < services.len()
        invariant
            i <= services@.len(),
            all == services.deep_view(),
            all.len() == services@.len(),
            f == (|service: ServiceView| service_problems(service, *snapshot)),
            r.deep_view() == text::flat_map(all.take(i as int), f),
        decreases services@.len() - i,
    {
        push_lines(&mut r, check_service(&services[i], snapshot));
        proof {
            text::lemma_flat_map_step(all, f, i as int);
            assert(all[i as int] == services@[i as int].deep_view());
        }
        i += 1;
    }
    assert(all.take(all.len() as int) =~= all);
    r
}

fn check_profiles(installed: &Vec<ProfileRecord>, listings: &Vec<ProfileListing>) -> (r: Vec<
    String,
>)
    ensures
        r.deep_view() == profiles_problems(installed.deep_view(), listings.deep_view()),
{
    let ghost all = installed.deep_view();
    let ghost f = |profile: ProfileView| profile_problems(profile, listings.deep_view());
    let mut r: Vec<String> = Vec::new();
    let mut i: usize = 0;
    assert(r.deep_view() =~= text::flat_map(all.take(0), f));
    while i < installed.len()
        invariant
            i <= installed@.len(),
            all == installed.deep_view(),
            all.len() == installed@.len(),
            f == (|profile: ProfileView| profile_problems(profile, listings.deep_view())),
            r.deep_view() == text::flat_map(all.take(i as int), f),
        decreases installed@.len() - i,
    {
        push_lines(&mut r, check_profile(&installed[i], listings));
        proof {
            text::lemma_flat_map_step(all, f, i as int);
            assert(all[i as int] == installed@[i as int].deep_view());
        }
        i += 1;
    }
    assert(all.take(all.len() as int) =~= all);
    r
}

fn check_modules(modules: &Vec<ModuleRecord>, snapshot: &Snapshot) -> (r: Vec<String>)
    ensures
        r.deep_view() == modules_problems(modules.deep_view(), *snapshot),
{
    let ghost all = modules.deep_view();
    let ghost f = |module: ModuleView| module_problems(module, *snapshot);
    let mut r: Vec<String> = Vec::new();
    let mut i: usize = 0;
    assert(r.deep_view() =~= text::flat_map(all.take(0), f));
    while i < modules.len()
        invariant
            i <= modules@.len(),
            all == modules.deep_view(),
            all.len() == modules@.len(),
            f == (|module: ModuleView| module_problems(module, *snapshot)),
            r.deep_view() == text::flat_map(all.take(i as int), f),
        decreases modules@.len() - i,
    {
        push_lines(&mut r, check_module(&modules[i], snapshot));
        proof {
            text::lemma_flat_map_step(all, f, i as int);
            assert(all[i as int] == modules@[i as int].deep_view());
        }
        i += 1;
    }
    assert(all.take(all.len() as int) =~= all);
    r
}

/// Holds a record against what is on the machine.
pub fn check_record(
    record: ActivationRecord,
    snapshot: &Snapshot,
    listings: &Vec<ProfileListing>,
) -> (r: ActivationCheck)
    ensures
        r.deep_view() == (CheckView {
            record: record.deep_view(),
            problems: record_problems(record.deep_view(), *snapshot, listings.deep_view()),
        }),
{
    let mut problems = check_base(&record, snapshot);
    push_lines(&mut problems, check_links(&record.links, snapshot));
    push_lines(&mut problems, check_services(&record.services, snapshot));
    push_lines(&mut problems, check_profiles(&record.profiles, listings));
    push_lines(&mut problems, check_modules(&record.modules, snapshot));
    ActivationCheck { record, problems }
}

// ---- What a clean check means

/// Whether a file is there with the contents that were recorded of it, if any were.
pub open spec fn target_intact(target: Text, expected: Option<Text>, snapshot: Snapshot) -> bool {
    snapshot.has(target) && (expected matches Some(digest) ==> snapshot.digest_or_step(target)
        == Ok::<Text, Text>(digest))
}

/// Whether a link leads to its target, and what it replaced can be restored.
pub open spec fn link_intact(link: LinkView, snapshot: Snapshot) -> bool {
    &&& snapshot.at(link.link).link matches LinkReadView::Target { path } && paths::same_path(
        path,
        link.target,
    )
    &&& target_intact(link.target, link.target_blake3, snapshot)
    &&& link.previous matches PreviousView::BackedUp { backup } ==> snapshot.has(backup)
}

/// Whether an override starts a service's target.
pub open spec fn service_intact(service: ServiceView, snapshot: Snapshot) -> bool {
    &&& snapshot.has(service.service_file)
    &&& snapshot.has_file(service.override_path)
    &&& snapshot.at(service.override_path).text matches Ok(contents) && text::occurs(
        contents,
        service.exec_start,
    )
    &&& target_intact(service.target, service.target_blake3, snapshot)
}

/// Whether a profile holds what was installed in it.
pub open spec fn profile_intact(profile: ProfileView, listings: Seq<ListingView>) -> bool {
    profiles::listing_has(profiles::listing_for(listings, profile.profile), profile.store_path)
        == Ok::<bool, Text>(true)
}

/// Whether a module is enabled and its overlay is there.
pub open spec fn module_intact(module: ModuleView, snapshot: Snapshot) -> bool {
    &&& snapshot.has_file(module.overlay)
    &&& snapshot.has_file(module.module)
    &&& snapshot.at(module.module).text matches Ok(contents) && text::occurs(
        contents,
        "forkpkg: enabled"@,
    )
}

/// Whether all that an activation set up, and all that it rests on, is in place.
pub open spec fn activation_intact(
    record: RecordView,
    snapshot: Snapshot,
    listings: Seq<ListingView>,
) -> bool {
    &&& record.key.len() > 0
    &&& snapshot.has_file(paths::joined(record.workspace, "forkpkg.toml"@))
    &&& snapshot.has_dir(record.source)
    &&& snapshot.has(record.build_output)
    &&& forall|i: int|
        0 <= i < record.links.len() ==> link_intact(#[trigger] record.links[i], snapshot)
    &&& forall|i: int|
        0 <= i < record.services.len() ==> service_intact(#[trigger] record.services[i], snapshot)
    &&& forall|i: int|
        0 <= i < record.profiles.len() ==> profile_intact(#[trigger] record.profiles[i], listings)
    &&& forall|i: int|
        0 <= i < record.modules.len() ==> module_intact(#[trigger] record.modules[i], snapshot)
}

/// A check finds nothing wrong just where the activation is intact.
pub proof fn a_clean_check_means_an_intact_activation(
    record: RecordView,
    snapshot: Snapshot,
    listings: Seq<ListingView>,
)
    ensures
        (record_problems(record, snapshot, listings).len() == 0) == activation_intact(
            record,
            snapshot,
            listings,
        ),
{
    let link = |link: LinkView| link_problems(link, snapshot);
    let service = |service: ServiceView| service_problems(service, snapshot);
    let profile = |profile: ProfileView| profile_problems(profile, listings);
    let module = |module: ModuleView| module_problems(module, snapshot);
    text::lemma_flat_map_empty(record.links, link);
    text::lemma_flat_map_empty(record.services, service);
    text::lemma_flat_map_empty(record.profiles, profile);
    text::lemma_flat_map_empty(record.modules, module);
    assert forall|x: LinkView|
        (#[trigger] link_problems(x, snapshot)).len() == 0 <==> link_intact(x, snapshot) by {}
    assert forall|x: ServiceView|
        (#[trigger] service_problems(x, snapshot)).len() == 0 <==> service_intact(x, snapshot) by {}
    assert forall|x: ProfileView|
        (#[trigger] profile_problems(x, listings)).len() == 0 <==> profile_intact(x, listings) by {}
    assert forall|x: ModuleView|
        (#[trigger] module_problems(x, snapshot)).len() == 0 <==> module_intact(x, snapshot) by {}
    assert(forall|i: int|
        0 <= i < record.links.len() ==> link(#[trigger] record.links[i]) == link_problems(
            record.links[i],
            snapshot,
        ));
    assert(forall|i: int|
        0 <= i < record.services.len() ==> service(#[trigger] record.services[i])
            == service_problems(record.services[i], snapshot));
    assert(forall|i: int|
        0 <= i < record.profiles.len() ==> profile(#[trigger] record.profiles[i])
            == profile_problems(record.profiles[i], listings));
    assert(forall|i: int|
        0 <= i < record.modules.len() ==> module(#[trigger] record.modules[i]) == module_problems(
            record.modules[i],
            snapshot,
        ));
}

} // verus!
