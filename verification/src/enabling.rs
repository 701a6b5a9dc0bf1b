//! Planning an activation: which backend, whether the options fit it, and the record.
use vstd::prelude::*;

use crate::activation::keys::{self, fork_key, ActivationPaths, PathsView};
use crate::activation::plan::{
    self, override_path, plan_home_manager_module, plan_nix_profile, plan_nixos_module, plan_path_shim,
    plan_systemd_user_service, Surroundings,
};
use crate::activation::records::{ActivationRecord, EntryView, RecordView};
use crate::activation::store::{self, RecordTree};
use crate::backends::{self, check_options, choose_service, select_backend, ActivationBackend};
use crate::directory::{self, executable_entries, DirRead};
use crate::metadata::{Metadata, MetadataView};
use crate::paths::{self, file_name, join};
use crate::snapshot::{self, Snapshot};
use crate::targets::OutputFacts;
use crate::text::{self, push_line, push_lines, Error, Text};
use crate::workspace::{Workspace, WorkspaceView};

verus! {

/// What was asked for.
#[derive(Debug, Clone)]
pub struct EnableRequest {
    pub backend: ActivationBackend,
    pub profile: Option<String>,
    pub switch: bool,
    pub flake: Option<String>,
}

/// What was read of the machine: its build output, the entries of that output's bin
/// directory, and what is below the activations directory.
pub struct EnableFacts {
    pub is_nixos: bool,
    pub output: OutputFacts,
    pub bin: DirRead,
    pub active: Option<RecordTree>,
}

/// The chosen backend and the record of the activation.
#[derive(Debug, Clone)]
pub struct EnablePlan {
    pub backend: ActivationBackend,
    pub record: ActivationRecord,
}

pub struct EnablePlanView {
    pub backend: ActivationBackend,
    pub record: RecordView,
}

impl DeepView for EnablePlan {
    type V = EnablePlanView;

    open spec fn deep_view(&self) -> EnablePlanView {
        EnablePlanView { backend: self.backend, record: self.record.deep_view() }
    }
}

/// The record of activating the one user service of an output.
pub open spec fn service_record(
    m: MetadataView,
    w: WorkspaceView,
    output: OutputFacts,
    around: Surroundings,
) -> Result<RecordView, Text> {
    match backends::service_choice(output) {
        Err(problem) => Err(problem),
        Ok(service) => plan::service_plan(
            m,
            w,
            output.output@,
            service.service,
            service.service_file,
            service.exec_start,
            service.executable->0,
            around,
        ),
    }
}

fn plan_service(
    metadata: &Metadata,
    workspace: &Workspace,
    output: &OutputFacts,
    around: &Surroundings,
) -> (r: Result<ActivationRecord, Error>)
    ensures
        text::outcome(r) == service_record(
            metadata.deep_view(),
            workspace.deep_view(),
            *output,
            *around,
        ),
{
    let service = match choose_service(output) {
        Ok(service) => service,
        Err(error) => {
            return Err(error);
        },
    };
    let executable = match &service.executable {
        Some(executable) => executable.as_str(),
        None => "",
    };
    plan_systemd_user_service(
        metadata,
        workspace,
        output.output.as_str(),
        service.service.as_str(),
        service.service_file.as_str(),
        service.exec_start.as_str(),
        executable,
        around,
    )
}

/// The record of an activation through a backend. A backend that is left open counts as a
/// profile; none is by the time a record is planned.
pub open spec fn record_for(
    backend: ActivationBackend,
    profile: Option<Text>,
    m: MetadataView,
    w: WorkspaceView,
    facts: EnableFacts,
    around: Surroundings,
) -> Result<RecordView, Text> {
    let output = facts.output.output@;
    match backend {
        ActivationBackend::Auto | ActivationBackend::NixProfile => plan::profile_plan(
            m,
            w,
            output,
            profile,
            around,
        ),
        ActivationBackend::NixosModule => plan::module_plan(m, w, output, "nixos-module"@, around),
        ActivationBackend::HomeManagerModule => plan::module_plan(
            m,
            w,
            output,
            "home-manager-module"@,
            around,
        ),
        ActivationBackend::PathShim => plan::shim_plan(
            m,
            w,
            output,
            facts.bin,
            facts.active,
            around,
        ),
        ActivationBackend::SystemdUserService => service_record(m, w, facts.output, around),
    }
}

fn plan_record(
    backend: ActivationBackend,
    profile: &Option<String>,
    metadata: &Metadata,
    workspace: &Workspace,
    facts: &EnableFacts,
    around: &Surroundings,
) -> (r: Result<ActivationRecord, Error>)
    ensures
        text::outcome(r) == record_for(
            backend,
            profile.deep_view(),
            metadata.deep_view(),
            workspace.deep_view(),
            *facts,
            *around,
        ),
{
    let output = facts.output.output.as_str();
    match backend {
        ActivationBackend::Auto | ActivationBackend::NixProfile => plan_nix_profile(
            metadata,
            workspace,
            output,
            profile,
            around,
        ),
        ActivationBackend::NixosModule => plan_nixos_module(metadata, workspace, output, around),
        ActivationBackend::HomeManagerModule => plan_home_manager_module(
            metadata,
            workspace,
            output,
            around,
        ),
        ActivationBackend::PathShim => plan_path_shim(
            metadata,
            workspace,
            output,
            &facts.bin,
            &facts.active,
            around,
        ),
        ActivationBackend::SystemdUserService => plan_service(
            metadata,
            workspace,
            &facts.output,
            around,
        ),
    }
}

/// The plan of an activation, or the first reason to refuse it.
pub open spec fn enable_plan(
    request: EnableRequest,
    m: MetadataView,
    w: WorkspaceView,
    facts: EnableFacts,
    around: Surroundings,
) -> Result<EnablePlanView, Text> {
    match backends::selected(request.backend, facts.is_nixos, facts.output) {
        Err(problem) => Err(problem),
        Ok(backend) => match backends::options_refusal(
            backend,
            request.profile is Some,
            request.switch,
            request.flake is Some,
        ) {
            Some(problem) => Err(problem),
            None => match record_for(backend, request.profile.deep_view(), m, w, facts, around) {
                Err(problem) => Err(problem),
                Ok(record) => Ok(EnablePlanView { backend, record }),
            },
        },
    }
}

/// Plans an activation.
pub fn plan_enable(
    request: &EnableRequest,
    metadata: &Metadata,
    workspace: &Workspace,
    facts: &EnableFacts,
    around: &Surroundings,
) -> (r: Result<EnablePlan, Error>)
    ensures
        text::outcome(r) == enable_plan(
            *request,
            metadata.deep_view(),
            workspace.deep_view(),
            *facts,
            *around,
        ),
{
    let backend = match select_backend(request.backend, facts.is_nixos, &facts.output) {
        Ok(backend) => backend,
        Err(error) => {
            return Err(error);
        },
    };
    if let Err(error) = check_options(
        backend,
        request.profile.is_some(),
        request.switch,
        request.flake.is_some(),
    ) {
        return Err(error);
    }
    match plan_record(backend, &request.profile, metadata, workspace, facts, around) {
        Ok(record) => Ok(EnablePlan { backend, record }),
        Err(error) => Err(error),
    }
}

/// A record is kept under its fork's key, whatever the backend, and is never planned for a
/// fork that has one already.
pub proof fn planned_records_are_their_forks(
    request: EnableRequest,
    m: MetadataView,
    w: WorkspaceView,
    facts: EnableFacts,
    around: Surroundings,
)
    ensures
        enable_plan(request, m, w, facts, around) matches Ok(plan) ==> {
            &&& plan.record.key == crate::activation::keys::fork_key_of(m)
            &&& plan.record.package == crate::activation::keys::fork_display_name_of(m)
            &&& plan.record.workspace == w.root
            &&& plan.record.build_output == facts.output.output@
            &&& !around.active(m)
        },
{
}

// ---- What planning looks at

/// The paths that count for linking one executable.
pub open spec fn target_places(target: Text, key: Text, p: PathsView) -> Seq<Text> {
    match paths::last_name(target) {
        None => Seq::empty(),
        Some(name) => seq![
            paths::joined(p.user_bin_dir, name),
            paths::joined(paths::joined(p.activation_dir(key), "backups"@), name),
            target,
        ],
    }
}

/// The executables that a link activation would link, as far as they can be told.
pub open spec fn link_targets(facts: EnableFacts) -> Seq<Text> {
    match directory::executables_in(
        paths::joined(facts.output.output@, "bin"@),
        facts.bin.deep_view(),
    ) {
        Ok(targets) => targets,
        Err(_) => Seq::empty(),
    }
}

/// The paths that count for a service activation.
pub open spec fn chosen_service_places(output: OutputFacts, p: PathsView) -> Seq<Text> {
    match backends::service_choice(output) {
        Err(_) => Seq::empty(),
        Ok(service) => seq![
            plan::override_path_of(p, service.service),
            text::or_empty(service.executable),
        ],
    }
}

/// The paths that count for planning an activation.
pub open spec fn planning_places_of(m: MetadataView, p: PathsView, facts: EnableFacts) -> Seq<Text> {
    let output = facts.output.output@;
    seq![output, paths::joined(output, "bin"@)] + text::flat_map(
        link_targets(facts),
        |target: Text| target_places(target, keys::fork_key_of(m), p),
    ) + chosen_service_places(facts.output, p)
}

fn places_of_target(target: &String, key: &str, paths: &ActivationPaths) -> (r: Vec<String>)
    ensures
        r.deep_view() == target_places(target@, key@, paths.deep_view()),
{
    let mut r: Vec<String> = Vec::new();
    if let Some(name) = file_name(target.as_str()) {
        let backups = join(paths.activation_dir(key).as_str(), "backups");
        push_line(&mut r, join(paths.user_bin_dir.as_str(), name.as_str()));
        push_line(&mut r, join(backups.as_str(), name.as_str()));
        push_line(&mut r, target.clone());
    }
    assert(r.deep_view() =~= target_places(target@, key@, paths.deep_view()));
    r
}

/// The paths to look at before an activation is planned.
pub fn planning_places(metadata: &Metadata, paths: &ActivationPaths, facts: &EnableFacts) -> (r: Vec<
    String,
>)
    ensures
        r.deep_view() == planning_places_of(metadata.deep_view(), paths.deep_view(), *facts),
{
    let output = facts.output.output.as_str();
    let bin = join(output, "bin");
    let key = fork_key(metadata);
    let targets = match executable_entries(bin.as_str(), &facts.bin) {
        Ok(targets) => targets,
        Err(_) => Vec::new(),
    };
    let ghost all = targets.deep_view();
    assert(all =~= link_targets(*facts));
    let mut r: Vec<String> = Vec::new();
    push_line(&mut r, output.to_owned());
    push_line(&mut r, bin);
    let ghost head = r.deep_view();
    let ghost p = paths.deep_view();
    let ghost f = |target: Text| target_places(target, key@, p);
    let mut i: usize = 0;
    assert(r.deep_view() =~= head + text::flat_map(all.take(0), f));
    while i < targets.len()
        invariant
            i <= targets@.len(),
            all == targets.deep_view(),
            all.len() == targets@.len(),
            p == paths.deep_view(),
            f == (|target: Text| target_places(target, key@, p)),
            r.deep_view() == head + text::flat_map(all.take(i as int), f),
        decreases targets@.len() - i,
    {
        push_lines(&mut r, places_of_target(&targets[i], key.as_str(), paths));
        proof {
            text::lemma_flat_map_step(all, f, i as int);
            assert(all[i as int] == targets@[i as int]@);
            assert(r.deep_view() =~= head + text::flat_map(all.take(i + 1), f));
        }
        i += 1;
    }
    assert(all.take(all.len() as int) =~= all);
    if let Ok(service) = choose_service(&facts.output) {
        push_line(&mut r, override_path(paths, service.service.as_str()));
        let executable = match service.executable {
            Some(executable) => executable,
            None => String::new(),
        };
        push_line(&mut r, executable);
    }
    assert(r.deep_view() =~= planning_places_of(metadata.deep_view(), p, *facts));
    r
}

proof fn lemma_links_planned_alike(
    targets: Seq<Text>,
    key: Text,
    p: PathsView,
    active: Seq<EntryView>,
    a: Snapshot,
    b: Snapshot,
)
    requires
        snapshot::told_alike(
            a,
            b,
            text::flat_map(targets, |target: Text| target_places(target, key, p)),
        ),
    ensures
        plan::links_plan(targets, key, p, active, a) == plan::links_plan(
            targets,
            key,
            p,
            active,
            b,
        ),
    decreases targets.len(),
{
    if targets.len() > 0 {
        let f = |target: Text| target_places(target, key, p);
        let front = text::flat_map(targets.drop_last(), f);
        let all = text::flat_map(targets, f);
        let last = target_places(targets.last(), key, p);
        assert forall|path: Text| #[trigger] front.contains(path) implies a.at(path) == b.at(
            path,
        ) by {
            let k = choose|k: int| 0 <= k < front.len() && front[k] == path;
            assert(all[k] == path);
            assert(all.contains(path));
        }
        lemma_links_planned_alike(targets.drop_last(), key, p, active, a, b);
        assert forall|path: Text| #[trigger] last.contains(path) implies a.at(path) == b.at(
            path,
        ) by {
            let k = choose|k: int| 0 <= k < last.len() && last[k] == path;
            assert(all[front.len() + k] == path);
            assert(all.contains(path));
        }
        if paths::last_name(targets.last()) is Some {
            assert(last.contains(last[0]) && last.contains(last[1]) && last.contains(last[2]));
        }
    }
}

/// What is planned depends on the planning places alone.
pub proof fn the_planning_places_decide(
    request: EnableRequest,
    m: MetadataView,
    w: WorkspaceView,
    facts: EnableFacts,
    around: Surroundings,
    snapshot: Snapshot,
)
    requires
        snapshot::told_alike(
            around.snapshot,
            snapshot,
            planning_places_of(m, around.view_paths(), facts),
        ),
    ensures
        enable_plan(request, m, w, facts, around) == enable_plan(
            request,
            m,
            w,
            facts,
            Surroundings { snapshot, ..around },
        ),
{
    let p = around.view_paths();
    let key = keys::fork_key_of(m);
    let a = around.snapshot;
    let other = Surroundings { snapshot, ..around };
    let output = facts.output.output@;
    let head = seq![output, paths::joined(output, "bin"@)];
    let targets = link_targets(facts);
    let links = text::flat_map(targets, |target: Text| target_places(target, key, p));
    let chosen = chosen_service_places(facts.output, p);
    let all = planning_places_of(m, p, facts);
    assert(all[0] == output && all[1] == paths::joined(output, "bin"@));
    assert(all.contains(output) && all.contains(paths::joined(output, "bin"@)));
    assert forall|path: Text| #[trigger] links.contains(path) implies a.at(path) == snapshot.at(
        path,
    ) by {
        let k = choose|k: int| 0 <= k < links.len() && links[k] == path;
        assert(all[head.len() + k] == path);
        assert(all.contains(path));
    }
    assert forall|path: Text| #[trigger] chosen.contains(path) implies a.at(path) == snapshot.at(
        path,
    ) by {
        let k = choose|k: int| 0 <= k < chosen.len() && chosen[k] == path;
        assert(all[head.len() + links.len() + k] == path);
        assert(all.contains(path));
    }
    assert(other.view_paths() == p);
    assert(other.active(m) == around.active(m));
    assert(plan::output_refusal(m, output, around) == plan::output_refusal(m, output, other));
    if let Ok(known) = store::entries_in(p, facts.active) {
        lemma_links_planned_alike(targets, key, p, known, a, snapshot);
    }
    assert(plan::shim_plan(m, w, output, facts.bin, facts.active, around) == plan::shim_plan(
        m,
        w,
        output,
        facts.bin,
        facts.active,
        other,
    ));
    if let Ok(service) = backends::service_choice(facts.output) {
        assert(chosen.contains(chosen[0]) && chosen.contains(chosen[1]));
    }
    assert(service_record(m, w, facts.output, around) == service_record(
        m,
        w,
        facts.output,
        other,
    ));
}

} // verus!
