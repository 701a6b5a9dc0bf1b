//! The backends on offer for a build output, each with what speaks for and against it.
use vstd::prelude::*;

use crate::activation::keys::{ActivationPaths, PathsView};
use crate::activation::profiles::{self, profile_contains_store_path, ListingRead};
use crate::activation::records::{ActivationRecord, ModuleRecord, ModuleView, RecordView};
use crate::activation::store::{self, status, RecordFacts, RecordFactsView};
use crate::backends::{self, has_service, systemd_user_service_target_count};
use crate::directory::{self, executable_entries};
use crate::metadata::{Metadata, MetadataView};
use crate::number::{self, usize_text};
use crate::paths::{self, join};
use crate::targets::{self, discover, OutputFacts};
use crate::text::{self, cat3, push_line, same, Error, Text};

verus! {

#[derive(Debug, Clone)]
pub struct BackendReport {
    pub output: String,
    pub backends: Vec<BackendEntry>,
}

#[derive(Debug, Clone)]
pub struct BackendEntry {
    pub id: String,
    pub kind: String,
    pub confidence: String,
    pub supported: bool,
    pub active: bool,
    pub evidence: Vec<String>,
    pub details: BackendDetails,
}

#[derive(Debug, Clone)]
pub enum BackendDetails {
    NixProfile { profile: Option<String>, profile_contains_output: bool },
    NixosModule { module: Option<String>, overlay: Option<String> },
    HomeManagerModule { module: Option<String>, overlay: Option<String> },
    LegacyPathShim { executable_count: usize },
    LegacySystemdUserService { service_count: usize },
}

pub struct BackendReportView {
    pub output: Text,
    pub backends: Seq<BackendView>,
}

pub struct BackendView {
    pub id: Text,
    pub kind: Text,
    pub confidence: Text,
    pub supported: bool,
    pub active: bool,
    pub evidence: Seq<Text>,
    pub details: BackendDetailsView,
}

pub enum BackendDetailsView {
    NixProfile { profile: Option<Text>, profile_contains_output: bool },
    NixosModule { module: Option<Text>, overlay: Option<Text> },
    HomeManagerModule { module: Option<Text>, overlay: Option<Text> },
    LegacyPathShim { executable_count: nat },
    LegacySystemdUserService { service_count: nat },
}

impl DeepView for BackendDetails {
    type V = BackendDetailsView;

    open spec fn deep_view(&self) -> BackendDetailsView {
        match self {
            BackendDetails::NixProfile { profile, profile_contains_output } => {
                BackendDetailsView::NixProfile {
                    profile: profile.deep_view(),
                    profile_contains_output: *profile_contains_output,
                }
            },
            BackendDetails::NixosModule { module, overlay } => BackendDetailsView::NixosModule {
                module: module.deep_view(),
                overlay: overlay.deep_view(),
            },
            BackendDetails::HomeManagerModule { module, overlay } => {
                BackendDetailsView::HomeManagerModule {
                    module: module.deep_view(),
                    overlay: overlay.deep_view(),
                }
            },
            BackendDetails::LegacyPathShim { executable_count } => {
                BackendDetailsView::LegacyPathShim { executable_count: *executable_count as nat }
            },
            BackendDetails::LegacySystemdUserService { service_count } => {
                BackendDetailsView::LegacySystemdUserService {
                    service_count: *service_count as nat,
                }
            },
        }
    }
}

impl DeepView for BackendEntry {
    type V = BackendView;

    open spec fn deep_view(&self) -> BackendView {
        BackendView {
            id: self.id@,
            kind: self.kind@,
            confidence: self.confidence@,
            supported: self.supported,
            active: self.active,
            evidence: self.evidence.deep_view(),
            details: self.details.deep_view(),
        }
    }
}

impl DeepView for BackendReport {
    type V = BackendReportView;

    open spec fn deep_view(&self) -> BackendReportView {
        BackendReportView { output: self.output@, backends: self.backends.deep_view() }
    }
}

/// What was read of a build output and of the machine: `has_share` and `has_applications`
/// tell whether `share` and `share/applications` are directories, `listing` is the default
/// profile.
pub struct BackendFacts {
    pub output: OutputFacts,
    pub has_share: bool,
    pub has_applications: bool,
    pub listing: ListingRead,
    pub is_nixos: bool,
    pub has_home_manager: bool,
}

pub open spec fn in_mode(active: Option<RecordView>, mode: Text) -> bool {
    active is Some && active->0.mode == mode
}

fn is_in_mode(active: &Option<ActivationRecord>, mode: &str) -> (r: bool)
    ensures
        r == in_mode(active.deep_view(), mode@),
{
    match active {
        Some(record) => same(record.mode.as_str(), mode),
        None => false,
    }
}

// ---- Profile

pub open spec fn profile_entry(
    active: Option<RecordView>,
    has_files: bool,
    managed: bool,
    contains: bool,
) -> BackendView {
    BackendView {
        id: "nix-profile"@,
        kind: "nix-profile"@,
        confidence: if managed {
            "low"@
        } else if has_files {
            "high"@
        } else {
            "medium"@
        },
        supported: true,
        active: in_mode(active, "nix-profile"@) || contains,
        evidence: seq![
            "Nix profile can install the built store output directly"@,
            "Nix owns the profile symlink tree and profile generations"@,
            if has_files {
                "output contains files that profiles normally expose"@
            } else {
                "output has no obvious profile-facing bin/share files"@
            },
        ] + text::only_if(
            managed,
            "service-like outputs may need a NixOS/Home Manager module instead"@,
        ),
        details: BackendDetailsView::NixProfile { profile: None, profile_contains_output: contains },
    }
}

fn profile_backend(
    active: &Option<ActivationRecord>,
    has_files: bool,
    managed: bool,
    contains: bool,
) -> (r: BackendEntry)
    ensures
        r.deep_view() == profile_entry(active.deep_view(), has_files, managed, contains),
{
    let mut evidence: Vec<String> = Vec::new();
    push_line(&mut evidence, "Nix profile can install the built store output directly".to_owned());
    push_line(&mut evidence, "Nix owns the profile symlink tree and profile generations".to_owned());
    if has_files {
        push_line(&mut evidence, "output contains files that profiles normally expose".to_owned());
    } else {
        push_line(&mut evidence, "output has no obvious profile-facing bin/share files".to_owned());
    }
    if managed {
        push_line(
            &mut evidence,
            "service-like outputs may need a NixOS/Home Manager module instead".to_owned(),
        );
    }
    let confidence = if managed {
        "low"
    } else if has_files {
        "high"
    } else {
        "medium"
    };
    let r = BackendEntry {
        id: "nix-profile".to_owned(),
        kind: "nix-profile".to_owned(),
        confidence: confidence.to_owned(),
        supported: true,
        active: is_in_mode(active, "nix-profile") || contains,
        evidence,
        details: BackendDetails::NixProfile { profile: None, profile_contains_output: contains },
    };
    proof {
        let goal = profile_entry(active.deep_view(), has_files, managed, contains);
        assert(r.deep_view().evidence =~= goal.evidence);
    }
    r
}

// ---- Modules

/// The first module of a backend.
pub open spec fn module_among(modules: Seq<ModuleView>, backend: Text) -> Option<ModuleView>
    decreases modules.len(),
{
    if modules.len() == 0 {
        None
    } else if modules[0].backend == backend {
        Some(modules[0])
    } else {
        module_among(modules.drop_first(), backend)
    }
}

/// The module of a backend in the fork's activation.
pub open spec fn active_module(active: Option<RecordView>, backend: Text) -> Option<ModuleView> {
    match active {
        Some(record) => module_among(record.modules, backend),
        None => None,
    }
}

fn find_module<'a>(active: &'a Option<ActivationRecord>, backend: &str) -> (r: Option<
    &'a ModuleRecord,
>)
    ensures
        active_module(active.deep_view(), backend@) == (match r {
            Some(module) => Some(module.deep_view()),
            None => None,
        }),
{
    let record = match active {
        Some(record) => record,
        None => {
            return None;
        },
    };
    let ghost all = record.modules.deep_view();
    let mut i: usize = 0;
    assert(all.skip(0) =~= all);
    while i < record.modules.len()
        invariant
            i <= record.modules@.len(),
            all == record.modules.deep_view(),
            all.len() == record.modules@.len(),
            active.deep_view() == Some(record.deep_view()),
            module_among(all, backend@) == module_among(all.skip(i as int), backend@),
        decreases record.modules@.len() - i,
    {
        assert(all.skip(i as int)[0] == record.modules@[i as int].deep_view());
        if same(record.modules[i].backend.as_str(), backend) {
            return Some(&record.modules[i]);
        }
        assert(all.skip(i as int).drop_first() =~= all.skip(i + 1));
        i += 1;
    }
    None
}

pub open spec fn module_file(module: Option<ModuleView>) -> Option<Text> {
    match module {
        Some(module) => Some(module.module),
        None => None,
    }
}

pub open spec fn overlay_file(module: Option<ModuleView>) -> Option<Text> {
    match module {
        Some(module) => Some(module.overlay),
        None => None,
    }
}

fn module_files(active: &Option<ActivationRecord>, backend: &str) -> (r: (
    Option<String>,
    Option<String>,
))
    ensures
        r.0.deep_view() == module_file(active_module(active.deep_view(), backend@)),
        r.1.deep_view() == overlay_file(active_module(active.deep_view(), backend@)),
{
    match find_module(active, backend) {
        Some(module) => (Some(module.module.clone()), Some(module.overlay.clone())),
        None => (None, None),
    }
}

pub open spec fn nixos_entry(active: Option<RecordView>, is_nixos: bool, managed: bool) -> BackendView {
    BackendView {
        id: "nixos-module"@,
        kind: "nixos-module"@,
        confidence: if is_nixos && managed {
            "high"@
        } else if is_nixos {
            "medium"@
        } else {
            "low"@
        },
        supported: is_nixos,
        active: in_mode(active, "nixos-module"@),
        evidence: seq![
            "generated module adds a nixpkgs overlay for the forked package"@,
            "NixOS activation happens through the user's normal nixos-rebuild switch"@,
        ] + text::only_if(managed, "output contains service or D-Bus activation files"@)
            + text::only_if(!is_nixos, "this machine does not look like NixOS"@),
        details: BackendDetailsView::NixosModule {
            module: module_file(active_module(active, "nixos-module"@)),
            overlay: overlay_file(active_module(active, "nixos-module"@)),
        },
    }
}

fn nixos_backend(active: &Option<ActivationRecord>, is_nixos: bool, managed: bool) -> (r: BackendEntry)
    ensures
        r.deep_view() == nixos_entry(active.deep_view(), is_nixos, managed),
{
    let mut evidence: Vec<String> = Vec::new();
    push_line(
        &mut evidence,
        "generated module adds a nixpkgs overlay for the forked package".to_owned(),
    );
    push_line(
        &mut evidence,
        "NixOS activation happens through the user's normal nixos-rebuild switch".to_owned(),
    );
    if managed {
        push_line(&mut evidence, "output contains service or D-Bus activation files".to_owned());
    }
    if !is_nixos {
        push_line(&mut evidence, "this machine does not look like NixOS".to_owned());
    }
    let confidence = if is_nixos && managed {
        "high"
    } else if is_nixos {
        "medium"
    } else {
        "low"
    };
    let (module, overlay) = module_files(active, "nixos-module");
    let r = BackendEntry {
        id: "nixos-module".to_owned(),
        kind: "nixos-module".to_owned(),
        confidence: confidence.to_owned(),
        supported: is_nixos,
        active: is_in_mode(active, "nixos-module"),
        evidence,
        details: BackendDetails::NixosModule { module, overlay },
    };
    proof {
        let goal = nixos_entry(active.deep_view(), is_nixos, managed);
        assert(r.deep_view().evidence =~= goal.evidence);
    }
    r
}

pub open spec fn home_manager_entry(active: Option<RecordView>, present: bool) -> BackendView {
    BackendView {
        id: "home-manager-module"@,
        kind: "home-manager-module"@,
        confidence: if present {
            "medium"@
        } else {
            "low"@
        },
        supported: present,
        active: in_mode(active, "home-manager-module"@),
        evidence: seq![
            "generated module adds a nixpkgs overlay for Home Manager evaluation"@,
            "activation happens through the user's normal home-manager switch"@,
        ] + text::only_if(!present, "home-manager command was not found in PATH"@),
        details: BackendDetailsView::HomeManagerModule {
            module: module_file(active_module(active, "home-manager-module"@)),
            overlay: overlay_file(active_module(active, "home-manager-module"@)),
        },
    }
}

fn home_manager_backend(active: &Option<ActivationRecord>, present: bool) -> (r: BackendEntry)
    ensures
        r.deep_view() == home_manager_entry(active.deep_view(), present),
{
    let mut evidence: Vec<String> = Vec::new();
    push_line(
        &mut evidence,
        "generated module adds a nixpkgs overlay for Home Manager evaluation".to_owned(),
    );
    push_line(
        &mut evidence,
        "activation happens through the user's normal home-manager switch".to_owned(),
    );
    if !present {
        push_line(&mut evidence, "home-manager command was not found in PATH".to_owned());
    }
    let confidence = if present {
        "medium"
    } else {
        "low"
    };
    let (module, overlay) = module_files(active, "home-manager-module");
    let r = BackendEntry {
        id: "home-manager-module".to_owned(),
        kind: "home-manager-module".to_owned(),
        confidence: confidence.to_owned(),
        supported: present,
        active: is_in_mode(active, "home-manager-module"),
        evidence,
        details: BackendDetails::HomeManagerModule { module, overlay },
    };
    proof {
        let goal = home_manager_entry(active.deep_view(), present);
        assert(r.deep_view().evidence =~= goal.evidence);
    }
    r
}

// ---- Direct activation

pub open spec fn low_or_none(supported: bool) -> Text {
    if supported {
        "low"@
    } else {
        "none"@
    }
}

pub open spec fn path_shim_entry(active: Option<RecordView>, count: nat) -> BackendView {
    BackendView {
        id: "path-shim"@,
        kind: "path-shim"@,
        confidence: low_or_none(count > 0),
        supported: count > 0,
        active: in_mode(active, "path-shim"@),
        evidence: seq![
            "legacy direct activation; bypasses Nix profile/module ownership"@,
            "output has "@ + number::decimal(count) + " executable(s) in bin/"@,
        ],
        details: BackendDetailsView::LegacyPathShim { executable_count: count },
    }
}

fn path_shim_backend(active: &Option<ActivationRecord>, count: usize) -> (r: BackendEntry)
    ensures
        r.deep_view() == path_shim_entry(active.deep_view(), count as nat),
{
    let mut evidence: Vec<String> = Vec::new();
    push_line(
        &mut evidence,
        "legacy direct activation; bypasses Nix profile/module ownership".to_owned(),
    );
    push_line(
        &mut evidence,
        cat3("output has ", usize_text(count).as_str(), " executable(s) in bin/"),
    );
    let confidence = if count > 0 {
        "low"
    } else {
        "none"
    };
    let r = BackendEntry {
        id: "path-shim".to_owned(),
        kind: "path-shim".to_owned(),
        confidence: confidence.to_owned(),
        supported: count > 0,
        active: is_in_mode(active, "path-shim"),
        evidence,
        details: BackendDetails::LegacyPathShim { executable_count: count },
    };
    assert(r.deep_view().evidence =~= path_shim_entry(active.deep_view(), count as nat).evidence);
    r
}

pub open spec fn user_service_entry(active: Option<RecordView>, count: nat) -> BackendView {
    BackendView {
        id: "systemd-user-service"@,
        kind: "systemd-user-service"@,
        confidence: low_or_none(count == 1),
        supported: count == 1,
        active: in_mode(active, "systemd-user-service"@),
        evidence: seq![
            "legacy direct activation; writes a user systemd override"@,
            "output has "@ + number::decimal(count) + " supported systemd user service target(s)"@,
        ],
        details: BackendDetailsView::LegacySystemdUserService { service_count: count },
    }
}

fn user_service_backend(active: &Option<ActivationRecord>, count: usize) -> (r: BackendEntry)
    ensures
        r.deep_view() == user_service_entry(active.deep_view(), count as nat),
{
    let mut evidence: Vec<String> = Vec::new();
    push_line(
        &mut evidence,
        "legacy direct activation; writes a user systemd override".to_owned(),
    );
    push_line(
        &mut evidence,
        cat3(
            "output has ",
            usize_text(count).as_str(),
            " supported systemd user service target(s)",
        ),
    );
    let confidence = if count == 1 {
        "low"
    } else {
        "none"
    };
    let r = BackendEntry {
        id: "systemd-user-service".to_owned(),
        kind: "systemd-user-service".to_owned(),
        confidence: confidence.to_owned(),
        supported: count == 1,
        active: is_in_mode(active, "systemd-user-service"),
        evidence,
        details: BackendDetails::LegacySystemdUserService { service_count: count },
    };
    assert(r.deep_view().evidence =~= user_service_entry(active.deep_view(), count as nat).evidence);
    r
}

// ---- The report

/// How many executables an output has in its bin directory.
pub open spec fn executables_of(facts: OutputFacts) -> Result<nat, Text> {
    match facts.bin {
        None => Ok(0),
        Some(bin) => match directory::executables_in(
            paths::joined(facts.output@, "bin"@),
            bin.deep_view(),
        ) {
            Ok(found) => Ok(found.len()),
            Err(problem) => Err(problem),
        },
    }
}

pub fn output_bin_executable_count(facts: &OutputFacts) -> (r: Result<usize, Error>)
    ensures
        executables_of(*facts) == (match r {
            Ok(count) => Ok(count as nat),
            Err(error) => Err(error@),
        }),
{
    match &facts.bin {
        None => Ok(0),
        Some(bin) => match executable_entries(join(facts.output.as_str(), "bin").as_str(), bin) {
            Ok(found) => Ok(found.len()),
            Err(error) => Err(error),
        },
    }
}

pub open spec fn exposes_files(facts: BackendFacts) -> bool {
    facts.output.bin is Some || facts.has_applications || facts.has_share
}

/// Whether the default profile is known to hold the output.
pub open spec fn in_default_profile(facts: BackendFacts) -> bool {
    profiles::listing_has(facts.listing.deep_view(), facts.output.output@) == Ok::<bool, Text>(true)
}

/// The backends, the preferred one first.
pub open spec fn backends_of(
    active: Option<RecordView>,
    found: Seq<targets::TargetView>,
    executables: nat,
    facts: BackendFacts,
) -> Seq<BackendView> {
    let managed = backends::any_service(found);
    seq![
        profile_entry(active, exposes_files(facts), managed, in_default_profile(facts)),
        nixos_entry(active, facts.is_nixos, managed),
        home_manager_entry(active, facts.has_home_manager),
        path_shim_entry(active, executables),
        user_service_entry(active, backends::supported_services(found).len()),
    ]
}

/// The report on a fork whose activation is known.
pub open spec fn offered(active: Option<RecordView>, facts: BackendFacts) -> Result<
    BackendReportView,
    Text,
> {
    match targets::report_of(facts.output) {
        Err(problem) => Err(problem),
        Ok(report) => match executables_of(facts.output) {
            Err(problem) => Err(problem),
            Ok(executables) => Ok(
                BackendReportView {
                    output: facts.output.output@,
                    backends: backends_of(active, report.targets, executables, facts),
                },
            ),
        },
    }
}

/// The backends on offer for a fork's build output.
pub open spec fn offered_to(
    m: MetadataView,
    p: PathsView,
    records: Seq<RecordFactsView>,
    facts: BackendFacts,
) -> Result<BackendReportView, Text> {
    match store::status_of(m, p, records) {
        Err(problem) => Err(problem),
        Ok(active) => offered(active, facts),
    }
}

/// Finds the backends on offer for a fork's build output.
pub fn discover_backends(
    metadata: &Metadata,
    paths: &ActivationPaths,
    records: &Vec<RecordFacts>,
    facts: &BackendFacts,
) -> (r: Result<BackendReport, Error>)
    ensures
        text::outcome(r) == offered_to(
            metadata.deep_view(),
            paths.deep_view(),
            records.deep_view(),
            *facts,
        ),
{
    let active = match status(metadata, paths, records) {
        Ok(active) => active,
        Err(error) => {
            return Err(error);
        },
    };
    let report = match discover(&facts.output) {
        Ok(report) => report,
        Err(error) => {
            return Err(error);
        },
    };
    let service_count = systemd_user_service_target_count(&report);
    let managed = has_service(&report);
    let executable_count = match output_bin_executable_count(&facts.output) {
        Ok(count) => count,
        Err(error) => {
            return Err(error);
        },
    };
    let has_files = facts.output.bin.is_some() || facts.has_applications || facts.has_share;
    let contains = match profile_contains_store_path(&facts.listing, facts.output.output.as_str()) {
        Ok(contains) => contains,
        Err(_) => false,
    };
    let mut entries: Vec<BackendEntry> = Vec::new();
    entries.push(profile_backend(&active, has_files, managed, contains));
    entries.push(nixos_backend(&active, facts.is_nixos, managed));
    entries.push(home_manager_backend(&active, facts.has_home_manager));
    entries.push(path_shim_backend(&active, executable_count));
    entries.push(user_service_backend(&active, service_count));
    let r = BackendReport { output: facts.output.output.clone(), backends: entries };
    assert(r.deep_view().backends =~= backends_of(
        active.deep_view(),
        report.deep_view().targets,
        executable_count as nat,
        *facts,
    ));
    Ok(r)
}

/// Every report offers the same backends in the same order, and a profile always works.
pub proof fn a_profile_is_always_offered(active: Option<RecordView>, facts: BackendFacts)
    ensures
        offered(active, facts) matches Ok(report) ==> {
            &&& report.backends.len() == 5
            &&& report.backends[0].kind == "nix-profile"@
            &&& report.backends[0].supported
        },
{
}

} // verus!
