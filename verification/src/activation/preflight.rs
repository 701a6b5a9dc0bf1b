//! The conditions under which an activation, or its undoing, may begin.
use vstd::prelude::*;

use crate::activation::keys::{self, fork_display_name, ActivationPaths, PathsView};
use crate::activation::plan::{self, Surroundings};
use crate::activation::records::{
    ActivationRecord, EntryView, LinkRecord, LinkView, PreviousLink, PreviousView, RecordView,
    ServiceRecord, ServiceView,
};
use crate::activation::store::{self, status, RecordFacts, RecordFactsView, RecordTree};
use crate::directory::{self, DirRead};
use crate::metadata::{Metadata, MetadataView};
use crate::paths::{self, paths_match};
use crate::snapshot::{ContentRead, LinkRead, LinkReadView, Snapshot};
use crate::text::{self, cat2, cat4, cat6, contains, fail, same, Error, Text};
use crate::workspace::WorkspaceView;

verus! {

/// Why an activated file cannot be relied on, if it cannot.
pub open spec fn target_refusal(target: Text, expected: Option<Text>, snapshot: Snapshot) -> Option<
    Text,
> {
    if !snapshot.has(target) {
        Some("target is missing: "@ + target)
    } else {
        match expected {
            None => None,
            Some(expected) => match snapshot.digest_or_cause(target) {
                Err(problem) => Some(problem),
                Ok(actual) => if actual == expected {
                    None
                } else {
                    Some(
                        "refusing to use "@ + target + " because its hash changed: expected "@
                            + expected + ", got "@ + actual,
                    )
                },
            },
        }
    }
}

fn ensure_target_is_unchanged(target: &str, expected: &Option<String>, snapshot: &Snapshot) -> (r:
    Result<(), Error>)
    ensures
        text::refusal(r) == target_refusal(target@, expected.deep_view(), *snapshot),
{
    if !snapshot.is_present(target) {
        return Err(fail(cat2("target is missing: ", target)));
    }
    if let Some(expected) = expected {
        match snapshot.hash_cause(target) {
            Err(error) => {
                return Err(error);
            },
            Ok(actual) => {
                if !same(actual.as_str(), expected.as_str()) {
                    return Err(
                        fail(
                            cat6(
                                "refusing to use ",
                                target,
                                " because its hash changed: expected ",
                                expected.as_str(),
                                ", got ",
                                actual.as_str(),
                            ),
                        ),
                    );
                }
            },
        }
    }
    Ok(())
}

// ---- Before enabling

/// Why a path must be free, and is not.
pub open spec fn taken_refusal(path: Text, message: Text, snapshot: Snapshot) -> Option<Text> {
    match snapshot.has_entry(path) {
        Err(problem) => Some(problem),
        Ok(true) => Some(message + path),
        Ok(false) => None,
    }
}

fn ensure_free(path: &str, message: &str, snapshot: &Snapshot) -> (r: Result<(), Error>)
    ensures
        text::refusal(r) == taken_refusal(path@, message@, *snapshot),
{
    match snapshot.link_exists(path) {
        Err(error) => Err(error),
        Ok(taken) => if taken {
            Err(fail(cat2(message, path)))
        } else {
            Ok(())
        },
    }
}

/// Why a path must hold something, and does not.
pub open spec fn gone_refusal(path: Text, message: Text, snapshot: Snapshot) -> Option<Text> {
    match snapshot.has_entry(path) {
        Err(problem) => Some(problem),
        Ok(true) => None,
        Ok(false) => Some(message + path),
    }
}

fn ensure_taken(path: &str, message: &str, snapshot: &Snapshot) -> (r: Result<(), Error>)
    ensures
        text::refusal(r) == gone_refusal(path@, message@, *snapshot),
{
    match snapshot.link_exists(path) {
        Err(error) => Err(error),
        Ok(taken) => if taken {
            Ok(())
        } else {
            Err(fail(cat2(message, path)))
        },
    }
}

/// Why an entry must not be a directory, and is one.
pub open spec fn directory_refusal(path: Text, snapshot: Snapshot) -> Option<Text> {
    match snapshot.has_plain_dir(path) {
        Err(problem) => Some(problem),
        Ok(true) => Some("refusing to replace existing directory in PATH: "@ + path),
        Ok(false) => None,
    }
}

fn ensure_no_directory(path: &str, snapshot: &Snapshot) -> (r: Result<(), Error>)
    ensures
        text::refusal(r) == directory_refusal(path@, *snapshot),
{
    match snapshot.is_plain_directory(path) {
        Err(error) => Err(error),
        Ok(directory) => if directory {
            Err(fail(cat2("refusing to replace existing directory in PATH: ", path)))
        } else {
            Ok(())
        },
    }
}

/// The first of two refusals.
pub open spec fn either(first: Option<Text>, second: Option<Text>) -> Option<Text> {
    match first {
        Some(message) => Some(message),
        None => second,
    }
}

pub open spec fn place_refusal(link: Text, previous: PreviousView, snapshot: Snapshot) -> Option<
    Text,
> {
    match previous {
        PreviousView::Absent => taken_refusal(
            link,
            "refusing to replace newly-created "@,
            snapshot,
        ),
        PreviousView::BackedUp { backup } => either(
            gone_refusal(link, "existing PATH entry disappeared: "@, snapshot),
            either(
                directory_refusal(link, snapshot),
                taken_refusal(backup, "refusing to overwrite existing backup: "@, snapshot),
            ),
        ),
    }
}

/// Why a link cannot be made as planned, if it cannot.
pub open spec fn link_refusal(link: LinkView, snapshot: Snapshot) -> Option<Text> {
    either(
        target_refusal(link.target, link.target_blake3, snapshot),
        place_refusal(link.link, link.previous, snapshot),
    )
}

fn preflight_link(link: &LinkRecord, snapshot: &Snapshot) -> (r: Result<(), Error>)
    ensures
        text::refusal(r) == link_refusal(link.deep_view(), *snapshot),
{
    if let Err(error) = ensure_target_is_unchanged(
        link.target.as_str(),
        &link.target_blake3,
        snapshot,
    ) {
        return Err(error);
    }
    match &link.previous {
        PreviousLink::Absent => ensure_free(
            link.link.as_str(),
            "refusing to replace newly-created ",
            snapshot,
        ),
        PreviousLink::BackedUp { backup } => {
            if let Err(error) = ensure_taken(
                link.link.as_str(),
                "existing PATH entry disappeared: ",
                snapshot,
            ) {
                return Err(error);
            }
            if let Err(error) = ensure_no_directory(link.link.as_str(), snapshot) {
                return Err(error);
            }
            ensure_free(backup.as_str(), "refusing to overwrite existing backup: ", snapshot)
        },
    }
}

/// Why a service cannot be overridden as planned, if it cannot.
pub open spec fn service_refusal(service: ServiceView, snapshot: Snapshot) -> Option<Text> {
    either(
        target_refusal(service.target, service.target_blake3, snapshot),
        taken_refusal(
            service.override_path,
            "refusing to overwrite existing systemd override: "@,
            snapshot,
        ),
    )
}

fn preflight_service(service: &ServiceRecord, snapshot: &Snapshot) -> (r: Result<(), Error>)
    ensures
        text::refusal(r) == service_refusal(service.deep_view(), *snapshot),
{
    if let Err(error) = ensure_target_is_unchanged(
        service.target.as_str(),
        &service.target_blake3,
        snapshot,
    ) {
        return Err(error);
    }
    ensure_free(
        service.override_path.as_str(),
        "refusing to overwrite existing systemd override: ",
        snapshot,
    )
}

/// Why an activation must not begin, if it must not.
pub open spec fn enable_refusal(record: RecordView, p: PathsView, snapshot: Snapshot) -> Option<
    Text,
> {
    if snapshot.has(p.record_path(record.key)) {
        Some("activation record already exists: "@ + p.record_path(record.key))
    } else {
        either(
            text::first_refusal(record.links, |link: LinkView| link_refusal(link, snapshot)),
            text::first_refusal(
                record.services,
                |service: ServiceView| service_refusal(service, snapshot),
            ),
        )
    }
}

/// Checks that an activation may begin.
pub fn preflight_enable_record(
    record: &ActivationRecord,
    paths: &ActivationPaths,
    snapshot: &Snapshot,
) -> (r: Result<(), Error>)
    ensures
        text::refusal(r) == enable_refusal(record.deep_view(), paths.deep_view(), *snapshot),
{
    let record_path = paths.record_path(record);
    if snapshot.is_present(record_path.as_str()) {
        return Err(fail(cat2("activation record already exists: ", record_path.as_str())));
    }
    let ghost links = record.deep_view().links;
    let ghost on_link = |link: LinkView| link_refusal(link, *snapshot);
    let ghost services = record.deep_view().services;
    let ghost on_service = |service: ServiceView| service_refusal(service, *snapshot);
    let ghost rest = text::first_refusal(services, on_service);
    let mut i: usize = 0;
    assert(links.skip(0) =~= links);
    while i < record.links.len()
        invariant
            i <= record.links@.len(),
            links == record.deep_view().links,
            links.len() == record.links@.len(),
            on_link == (|link: LinkView| link_refusal(link, *snapshot)),
            enable_refusal(record.deep_view(), paths.deep_view(), *snapshot) == either(
                text::first_refusal(links.skip(i as int), on_link),
                rest,
            ),
        decreases record.links@.len() - i,
    {
        assert(links.skip(i as int)[0] == record.links@[i as int].deep_view());
        assert(links.skip(i as int).drop_first() =~= links.skip(i + 1));
        if let Err(error) = preflight_link(&record.links[i], snapshot) {
            return Err(error);
        }
        i += 1;
    }
    let mut k: usize = 0;
    assert(services.skip(0) =~= services);
    while k < record.services.len()
        invariant
            k <= record.services@.len(),
            services == record.deep_view().services,
            services.len() == record.services@.len(),
            on_service == (|service: ServiceView| service_refusal(service, *snapshot)),
            enable_refusal(record.deep_view(), paths.deep_view(), *snapshot)
                == text::first_refusal(services.skip(k as int), on_service),
        decreases record.services@.len() - k,
    {
        assert(services.skip(k as int)[0] == record.services@[k as int].deep_view());
        assert(services.skip(k as int).drop_first() =~= services.skip(k + 1));
        if let Err(error) = preflight_service(&record.services[k], snapshot) {
            return Err(error);
        }
        k += 1;
    }
    Ok(())
}

// ---- Before disabling

/// Why a link is not the one that was made, if it is not.
pub open spec fn changed_link_refusal(link: LinkView, snapshot: Snapshot) -> Option<Text> {
    match snapshot.at(link.link).link {
        LinkReadView::Absent => Some(
            link.link + " is not the symlink forkpkg created"@ + ": "@
                + "No such file or directory (os error 2)"@,
        ),
        LinkReadView::Failed { problem } => Some(
            link.link + " is not the symlink forkpkg created"@ + ": "@ + problem,
        ),
        LinkReadView::Target { path } => if paths::same_path(path, link.target) {
            None
        } else {
            Some(
                "refusing to disable because "@ + link.link + " now points to "@ + path
                    + ", not "@ + link.target,
            )
        },
    }
}

pub open spec fn lost_backup_refusal(previous: PreviousView, snapshot: Snapshot) -> Option<Text> {
    match previous {
        PreviousView::Absent => None,
        PreviousView::BackedUp { backup } => gone_refusal(
            backup,
            "cannot restore missing backup: "@,
            snapshot,
        ),
    }
}

/// Why a link cannot be taken back, if it cannot.
pub open spec fn unlink_refusal(link: LinkView, snapshot: Snapshot) -> Option<Text> {
    either(
        changed_link_refusal(link, snapshot),
        either(
            target_refusal(link.target, link.target_blake3, snapshot),
            lost_backup_refusal(link.previous, snapshot),
        ),
    )
}

fn preflight_unlink(link: &LinkRecord, snapshot: &Snapshot) -> (r: Result<(), Error>)
    ensures
        text::refusal(r) == unlink_refusal(link.deep_view(), *snapshot),
{
    match snapshot.read_link(link.link.as_str()) {
        LinkRead::Absent => {
            return Err(
                fail(
                    cat4(
                        link.link.as_str(),
                        " is not the symlink forkpkg created",
                        ": ",
                        "No such file or directory (os error 2)",
                    ),
                ),
            );
        },
        LinkRead::Failed { problem } => {
            return Err(
                fail(
                    cat4(
                        link.link.as_str(),
                        " is not the symlink forkpkg created",
                        ": ",
                        problem.as_str(),
                    ),
                ),
            );
        },
        LinkRead::Target { path } => {
            if !paths_match(path.as_str(), link.target.as_str()) {
                return Err(
                    fail(
                        cat6(
                            "refusing to disable because ",
                            link.link.as_str(),
                            " now points to ",
                            path.as_str(),
                            ", not ",
                            link.target.as_str(),
                        ),
                    ),
                );
            }
        },
    }
    if let Err(error) = ensure_target_is_unchanged(
        link.target.as_str(),
        &link.target_blake3,
        snapshot,
    ) {
        return Err(error);
    }
    match &link.previous {
        PreviousLink::Absent => Ok(()),
        PreviousLink::BackedUp { backup } => ensure_taken(
            backup.as_str(),
            "cannot restore missing backup: ",
            snapshot,
        ),
    }
}

/// Why a service's override is not the one that was written, if it is not.
pub open spec fn changed_override_refusal(service: ServiceView, snapshot: Snapshot) -> Option<
    Text,
> {
    if !snapshot.has_file(service.override_path) {
        Some("systemd override is missing: "@ + service.override_path)
    } else {
        match snapshot.at(service.override_path).text {
            Err(problem) => Some(
                "failed to read systemd override "@ + service.override_path + ": "@ + problem,
            ),
            Ok(contents) => if text::occurs(contents, service.exec_start) {
                None
            } else {
                Some(
                    "refusing to disable because systemd override no longer points to "@
                        + service.exec_start,
                )
            },
        }
    }
}

/// Why a service cannot be given back, if it cannot.
pub open spec fn release_refusal(service: ServiceView, snapshot: Snapshot) -> Option<Text> {
    either(
        target_refusal(service.target, service.target_blake3, snapshot),
        changed_override_refusal(service, snapshot),
    )
}

fn preflight_release(service: &ServiceRecord, snapshot: &Snapshot) -> (r: Result<(), Error>)
    ensures
        text::refusal(r) == release_refusal(service.deep_view(), *snapshot),
{
    if let Err(error) = ensure_target_is_unchanged(
        service.target.as_str(),
        &service.target_blake3,
        snapshot,
    ) {
        return Err(error);
    }
    if !snapshot.is_file(service.override_path.as_str()) {
        return Err(
            fail(cat2("systemd override is missing: ", service.override_path.as_str())),
        );
    }
    match snapshot.read_text(service.override_path.as_str()) {
        ContentRead::Failed { problem } => Err(
            fail(
                cat4(
                    "failed to read systemd override ",
                    service.override_path.as_str(),
                    ": ",
                    problem.as_str(),
                ),
            ),
        ),
        ContentRead::Read { text } => if contains(text.as_str(), service.exec_start.as_str()) {
            Ok(())
        } else {
            Err(
                fail(
                    cat2(
                        "refusing to disable because systemd override no longer points to ",
                        service.exec_start.as_str(),
                    ),
                ),
            )
        },
    }
}

/// Why undoing an activation must not begin, if it must not.
pub open spec fn disable_refusal(record: RecordView, p: PathsView, snapshot: Snapshot) -> Option<
    Text,
> {
    if !snapshot.has_file(p.record_path(record.key)) {
        Some("activation record is missing: "@ + p.record_path(record.key))
    } else {
        either(
            text::first_refusal(record.links, |link: LinkView| unlink_refusal(link, snapshot)),
            text::first_refusal(
                record.services,
                |service: ServiceView| release_refusal(service, snapshot),
            ),
        )
    }
}

/// Checks that undoing an activation may begin.
pub fn preflight_disable_record(
    record: &ActivationRecord,
    paths: &ActivationPaths,
    snapshot: &Snapshot,
) -> (r: Result<(), Error>)
    ensures
        text::refusal(r) == disable_refusal(record.deep_view(), paths.deep_view(), *snapshot),
{
    let record_path = paths.record_path(record);
    if !snapshot.is_file(record_path.as_str()) {
        return Err(fail(cat2("activation record is missing: ", record_path.as_str())));
    }
    let ghost links = record.deep_view().links;
    let ghost on_link = |link: LinkView| unlink_refusal(link, *snapshot);
    let ghost services = record.deep_view().services;
    let ghost on_service = |service: ServiceView| release_refusal(service, *snapshot);
    let ghost rest = text::first_refusal(services, on_service);
    let mut i: usize = 0;
    assert(links.skip(0) =~= links);
    while i < record.links.len()
        invariant
            i <= record.links@.len(),
            links == record.deep_view().links,
            links.len() == record.links@.len(),
            on_link == (|link: LinkView| unlink_refusal(link, *snapshot)),
            disable_refusal(record.deep_view(), paths.deep_view(), *snapshot) == either(
                text::first_refusal(links.skip(i as int), on_link),
                rest,
            ),
        decreases record.links@.len() - i,
    {
        assert(links.skip(i as int)[0] == record.links@[i as int].deep_view());
        assert(links.skip(i as int).drop_first() =~= links.skip(i + 1));
        if let Err(error) = preflight_unlink(&record.links[i], snapshot) {
            return Err(error);
        }
        i += 1;
    }
    let mut k: usize = 0;
    assert(services.skip(0) =~= services);
    while k < record.services.len()
        invariant
            k <= record.services@.len(),
            services == record.deep_view().services,
            services.len() == record.services@.len(),
            on_service == (|service: ServiceView| release_refusal(service, *snapshot)),
            disable_refusal(record.deep_view(), paths.deep_view(), *snapshot)
                == text::first_refusal(services.skip(k as int), on_service),
        decreases record.services@.len() - k,
    {
        assert(services.skip(k as int)[0] == record.services@[k as int].deep_view());
        assert(services.skip(k as int).drop_first() =~= services.skip(k + 1));
        if let Err(error) = preflight_release(&record.services[k], snapshot) {
            return Err(error);
        }
        k += 1;
    }
    Ok(())
}

/// The record to undo, or why it cannot be undone.
pub open spec fn disable_plan_of(
    m: MetadataView,
    p: PathsView,
    facts: Seq<RecordFactsView>,
    snapshot: Snapshot,
) -> Result<RecordView, Text> {
    match store::status_of(m, p, facts) {
        Err(problem) => Err(problem),
        Ok(None) => Err(keys::fork_display_name_of(m) + " is not active"@),
        Ok(Some(record)) => match disable_refusal(record, p, snapshot) {
            Some(problem) => Err(problem),
            None => Ok(record),
        },
    }
}

/// The activation of a fork, checked to be undoable.
pub fn disable_plan(
    metadata: &Metadata,
    paths: &ActivationPaths,
    facts: &Vec<RecordFacts>,
    snapshot: &Snapshot,
) -> (r: Result<ActivationRecord, Error>)
    ensures
        text::outcome(r) == disable_plan_of(
            metadata.deep_view(),
            paths.deep_view(),
            facts.deep_view(),
            *snapshot,
        ),
{
    let found = match status(metadata, paths, facts) {
        Ok(found) => found,
        Err(error) => {
            return Err(error);
        },
    };
    match found {
        None => Err(fail(cat2(fork_display_name(metadata).as_str(), " is not active"))),
        Some(record) => match preflight_disable_record(&record, paths, snapshot) {
            Ok(()) => Ok(record),
            Err(error) => Err(error),
        },
    }
}

// ---- Plans and checks

/// Whether a snapshot tells of one moment: what has a digest is there.
pub open spec fn tells_one_moment(snapshot: Snapshot) -> bool {
    forall|path: Text|
        (#[trigger] snapshot.digest_or_cause(path)) is Ok ==> snapshot.has(path)
}

proof fn lemma_planned_links_pass(
    targets: Seq<Text>,
    key: Text,
    p: PathsView,
    active: Seq<EntryView>,
    snapshot: Snapshot,
)
    requires
        tells_one_moment(snapshot),
        plan::links_plan(targets, key, p, active, snapshot) is Ok,
    ensures
        forall|i: int|
            0 <= i < plan::links_plan(targets, key, p, active, snapshot)->Ok_0.len()
                ==> link_refusal(
                #[trigger] plan::links_plan(targets, key, p, active, snapshot)->Ok_0[i],
                snapshot,
            ) is None,
    decreases targets.len(),
{
    if targets.len() > 0 {
        let front = targets.drop_last();
        lemma_planned_links_pass(front, key, p, active, snapshot);
        let planned = plan::links_plan(front, key, p, active, snapshot)->Ok_0;
        let link = plan::link_plan(targets.last(), key, p, active, snapshot)->Ok_0;
        let all = plan::links_plan(targets, key, p, active, snapshot)->Ok_0;
        assert(snapshot.digest_or_cause(link.target) is Ok);
        assert(link_refusal(link, snapshot) is None);
        assert forall|i: int| 0 <= i < all.len() implies link_refusal(
            #[trigger] all[i],
            snapshot,
        ) is None by {
            if i < planned.len() {
                assert(all[i] == planned[i]);
            }
        }
    }
}

/// What was planned may begin as long as nothing has changed: links.
pub proof fn a_fresh_link_plan_may_begin(
    m: MetadataView,
    workspace: WorkspaceView,
    build_output: Text,
    bin: DirRead,
    active: Option<RecordTree>,
    around: Surroundings,
)
    requires
        tells_one_moment(around.snapshot),
        !around.snapshot.has(around.view_paths().record_path(keys::fork_key_of(m))),
    ensures
        plan::shim_plan(m, workspace, build_output, bin, active, around) matches Ok(record)
            ==> enable_refusal(record, around.view_paths(), around.snapshot) is None,
{
    let p = around.view_paths();
    let bin_dir = paths::joined(build_output, "bin"@);
    if let Ok(record) = plan::shim_plan(m, workspace, build_output, bin, active, around) {
        let targets = directory::executables_in(bin_dir, bin.deep_view())->Ok_0;
        let others = store::entries_in(p, active)->Ok_0;
        lemma_planned_links_pass(targets, keys::fork_key_of(m), p, others, around.snapshot);
        text::lemma_none_refused(
            record.links,
            |link: LinkView| link_refusal(link, around.snapshot),
        );
        text::lemma_none_refused(
            record.services,
            |service: ServiceView| service_refusal(service, around.snapshot),
        );
    }
}

/// What was planned may begin as long as nothing has changed: a service.
pub proof fn a_fresh_service_plan_may_begin(
    m: MetadataView,
    workspace: WorkspaceView,
    build_output: Text,
    service: Text,
    service_file: Text,
    exec_start: Text,
    target: Text,
    around: Surroundings,
)
    requires
        !around.snapshot.has(around.view_paths().record_path(keys::fork_key_of(m))),
    ensures
        plan::service_plan(
            m,
            workspace,
            build_output,
            service,
            service_file,
            exec_start,
            target,
            around,
        ) matches Ok(record) ==> enable_refusal(record, around.view_paths(), around.snapshot)
            is None,
{
    if let Ok(record) = plan::service_plan(
        m,
        workspace,
        build_output,
        service,
        service_file,
        exec_start,
        target,
        around,
    ) {
        text::lemma_none_refused(
            record.links,
            |link: LinkView| link_refusal(link, around.snapshot),
        );
        text::lemma_none_refused(
            record.services,
            |service: ServiceView| service_refusal(service, around.snapshot),
        );
    }
}

} // verus!
