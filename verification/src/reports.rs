//! What the commands print of an activation and of a fork.
use vstd::prelude::*;

use crate::activation::check::{self, check_record};
use crate::activation::keys::{self, package_display_name, path_hint};
use crate::activation::profiles::{ListingView, ProfileListing};
use crate::activation::records::{
    ActivationRecord, LinkRecord, LinkView, ModuleRecord, ModuleView, PreviousLink, PreviousView,
    ProfileRecord, ProfileView, RecordView, ServiceRecord, ServiceView,
};
use crate::backends::{self, switch_command, ActivationBackend, SwitchCommand};
use crate::copying::Copied;
use crate::discovery::{
    BackendDetails, BackendDetailsView, BackendEntry, BackendReport, BackendReportView, BackendView,
};
use crate::forking::{self, fork_reference};
use crate::git::{RepoState, RepoView};
use crate::listing::{self, count_text, push_present, yes_no};
use crate::metadata::{Metadata, MetadataView};
use crate::number::{self, i64_text, u64_text, usize_text};
use crate::sharing::{ExportSummary, ExportSummaryView, ImportSummary, ImportSummaryView};
use crate::snapshot::Snapshot;
use crate::text::{self, cat2, cat3, cat4, cat6, push_line, push_lines, same, Error, Text};
use crate::workspace::{Environment, EnvironmentView, Workspace, WorkspaceView};

verus! {

/// What a record is told for.
#[derive(Debug, Clone, Copy, PartialEq, Eq, Structural)]
pub enum Style {
    Enable { dry_run: bool },
    Disable { dry_run: bool },
    Status,
    Doctor,
}

impl Style {
    pub open spec fn is_dry(self) -> bool {
        self == (Style::Enable { dry_run: true }) || self == (Style::Disable { dry_run: true })
    }

    fn dry(self) -> (r: bool)
        ensures
            r == self.is_dry(),
    {
        match self {
            Style::Enable { dry_run } => dry_run,
            Style::Disable { dry_run } => dry_run,
            _ => false,
        }
    }
}

/// A part of a record that is told in lines.
pub trait Reported: DeepView + Sized {
    spec fn lines(style: Style, item: Self::V) -> Seq<Text>;

    fn report(&self, style: Style) -> (r: Vec<String>)
        ensures
            r.deep_view() == Self::lines(style, self.deep_view()),
    ;
}

/// The lines of all parts, one part after the other.
pub open spec fn all_lines<T: Reported>(style: Style, items: Seq<T::V>) -> Seq<Text> {
    text::flat_map(items, |item: T::V| T::lines(style, item))
}

pub(crate) fn report_all<T: Reported>(items: &Vec<T>, style: Style) -> (r: Vec<String>)
    ensures
        r.deep_view() == all_lines::<T>(style, items.deep_view()),
{
    let ghost all = items.deep_view();
    let ghost f = |item: T::V| T::lines(style, item);
    let mut lines: Vec<String> = Vec::new();
    let mut i: usize = 0;
    assert(lines.deep_view() =~= text::flat_map(all.take(0), f));
    while i < items.len()
        invariant
            i <= items@.len(),
            all == items.deep_view(),
            all.len() == items@.len(),
            f == |item: T::V| T::lines(style, item),
            lines.deep_view() == text::flat_map(all.take(i as int), f),
        decreases items@.len() - i,
    {
        proof {
            text::lemma_flat_map_step(all, f, i as int);
        }
        assert(all[i as int] == items@[i as int].deep_view());
        push_lines(&mut lines, items[i].report(style));
        i += 1;
    }
    assert(all.take(all.len() as int) =~= all);
    lines
}

pub(crate) fn one(line: String) -> (r: Vec<String>)
    ensures
        r.deep_view() == seq![line@],
{
    let mut lines: Vec<String> = Vec::new();
    push_line(&mut lines, line);
    assert(lines.deep_view() =~= seq![line@]);
    lines
}

pub(crate) fn two(first: String, second: String) -> (r: Vec<String>)
    ensures
        r.deep_view() == seq![first@, second@],
{
    let mut lines = one(first);
    push_line(&mut lines, second);
    assert(lines.deep_view() =~= seq![first@, second@]);
    lines
}

pub(crate) fn three(first: String, second: String, third: String) -> (r: Vec<String>)
    ensures
        r.deep_view() == seq![first@, second@, third@],
{
    let mut lines = two(first, second);
    push_line(&mut lines, third);
    assert(lines.deep_view() =~= seq![first@, second@, third@]);
    lines
}

// ---- Digests

pub open spec fn digest_line(hash: Option<Text>) -> Text {
    match hash {
        Some(hash) => "target_blake3: "@ + hash,
        None => "target_blake3: missing"@,
    }
}

fn digest_text(hash: &Option<String>) -> (r: String)
    ensures
        r@ == digest_line(hash.deep_view()),
{
    match hash {
        Some(hash) => cat2("target_blake3: ", hash.as_str()),
        None => "target_blake3: missing".to_owned(),
    }
}

pub open spec fn verified_line(hash: Option<Text>) -> Text {
    match hash {
        Some(hash) => "  target_blake3: "@ + hash + " verified:yes"@,
        None => "  target_blake3: missing verified:no"@,
    }
}

fn verified_text(hash: &Option<String>) -> (r: String)
    ensures
        r@ == verified_line(hash.deep_view()),
{
    match hash {
        Some(hash) => cat3("  target_blake3: ", hash.as_str(), " verified:yes"),
        None => "  target_blake3: missing verified:no".to_owned(),
    }
}

// ---- Links

pub open spec fn arrow(label: Text, link: LinkView) -> Text {
    label + link.link + " -> "@ + link.target
}

fn arrow_text(label: &str, link: &LinkRecord) -> (r: String)
    ensures
        r@ == arrow(label@, link.deep_view()),
{
    cat4(label, link.link.as_str(), " -> ", link.target.as_str())
}

pub open spec fn enabled_link(link: LinkView, dry_run: bool) -> Seq<Text> {
    match link.previous {
        PreviousView::Absent => if dry_run {
            seq![
                arrow("would create: "@, link),
                digest_line(link.target_blake3),
                "previous: absent"@,
            ]
        } else {
            seq![arrow("link: "@, link), digest_line(link.target_blake3)]
        },
        PreviousView::BackedUp { backup } => if dry_run {
            seq!["would move existing: "@ + link.link, "backup: "@ + backup] + seq![
                arrow("would create: "@, link),
                digest_line(link.target_blake3),
            ]
        } else {
            seq![
                arrow("link: "@, link),
                digest_line(link.target_blake3),
                "previous backup: "@ + backup,
            ]
        },
    }
}

pub open spec fn disabled_link(link: LinkView, dry_run: bool) -> Seq<Text> {
    match link.previous {
        PreviousView::Absent => if dry_run {
            seq!["would remove: "@ + link.link, "previous: absent"@]
        } else {
            seq!["removed: "@ + link.link]
        },
        PreviousView::BackedUp { backup } => if dry_run {
            seq![
                "would remove: "@ + link.link,
                "would restore: "@ + backup + " -> "@ + link.link,
            ]
        } else {
            seq!["restored: "@ + link.link]
        },
    }
}

pub open spec fn link_status(link: LinkView) -> Seq<Text> {
    seq![
        arrow("binary: "@, link),
        digest_line(link.target_blake3),
        match link.previous {
            PreviousView::Absent => "previous: absent"@,
            PreviousView::BackedUp { backup } => "previous_backup: "@ + backup,
        },
    ]
}

fn tell_enabled_link(link: &LinkRecord, dry_run: bool) -> (r: Vec<String>)
    ensures
        r.deep_view() == enabled_link(link.deep_view(), dry_run),
{
    let digest = digest_text(&link.target_blake3);
    match &link.previous {
        PreviousLink::Absent => {
            if dry_run {
                three(arrow_text("would create: ", link), digest, "previous: absent".to_owned())
            } else {
                two(arrow_text("link: ", link), digest)
            }
        },
        PreviousLink::BackedUp { backup } => {
            if dry_run {
                let mut lines = two(
                    cat2("would move existing: ", link.link.as_str()),
                    cat2("backup: ", backup.as_str()),
                );
                push_lines(&mut lines, two(arrow_text("would create: ", link), digest));
                lines
            } else {
                three(
                    arrow_text("link: ", link),
                    digest,
                    cat2("previous backup: ", backup.as_str()),
                )
            }
        },
    }
}

fn tell_disabled_link(link: &LinkRecord, dry_run: bool) -> (r: Vec<String>)
    ensures
        r.deep_view() == disabled_link(link.deep_view(), dry_run),
{
    match &link.previous {
        PreviousLink::Absent => {
            if dry_run {
                two(cat2("would remove: ", link.link.as_str()), "previous: absent".to_owned())
            } else {
                one(cat2("removed: ", link.link.as_str()))
            }
        },
        PreviousLink::BackedUp { backup } => {
            if dry_run {
                two(
                    cat2("would remove: ", link.link.as_str()),
                    cat4("would restore: ", backup.as_str(), " -> ", link.link.as_str()),
                )
            } else {
                one(cat2("restored: ", link.link.as_str()))
            }
        },
    }
}

fn tell_link_status(link: &LinkRecord) -> (r: Vec<String>)
    ensures
        r.deep_view() == link_status(link.deep_view()),
{
    let previous = match &link.previous {
        PreviousLink::Absent => "previous: absent".to_owned(),
        PreviousLink::BackedUp { backup } => cat2("previous_backup: ", backup.as_str()),
    };
    three(arrow_text("binary: ", link), digest_text(&link.target_blake3), previous)
}

impl Reported for LinkRecord {
    open spec fn lines(style: Style, link: LinkView) -> Seq<Text> {
        match style {
            Style::Enable { dry_run } => enabled_link(link, dry_run),
            Style::Disable { dry_run } => disabled_link(link, dry_run),
            Style::Status => link_status(link),
            Style::Doctor => seq![arrow("  link: "@, link), verified_line(link.target_blake3)],
        }
    }

    fn report(&self, style: Style) -> (r: Vec<String>) {
        match style {
            Style::Enable { dry_run } => tell_enabled_link(self, dry_run),
            Style::Disable { dry_run } => tell_disabled_link(self, dry_run),
            Style::Status => tell_link_status(self),
            Style::Doctor => two(arrow_text("  link: ", self), verified_text(&self.target_blake3)),
        }
    }
}

// ---- Services

/// What the override of a service starts.
pub open spec fn service_start(service: ServiceView) -> Seq<Text> {
    seq![
        "exec_start: "@ + service.exec_start,
        "target: "@ + service.target,
        digest_line(service.target_blake3),
    ]
}

fn tell_service_start(service: &ServiceRecord) -> (r: Vec<String>)
    ensures
        r.deep_view() == service_start(service.deep_view()),
{
    three(
        cat2("exec_start: ", service.exec_start.as_str()),
        cat2("target: ", service.target.as_str()),
        digest_text(&service.target_blake3),
    )
}

pub open spec fn service_change(service: ServiceView, dry_run: bool) -> Seq<Text> {
    (if dry_run {
        seq![
            "override: "@ + service.override_path,
            "would run: systemctl --user daemon-reload"@,
            "would run: systemctl --user restart "@ + service.service,
        ]
    } else {
        seq!["service: "@ + service.service, "override: "@ + service.override_path]
    }) + seq!["service_file: "@ + service.service_file] + service_start(service)
}

fn tell_service_change(service: &ServiceRecord, dry_run: bool) -> (r: Vec<String>)
    ensures
        r.deep_view() == service_change(service.deep_view(), dry_run),
{
    let mut lines = if dry_run {
        three(
            cat2("override: ", service.override_path.as_str()),
            "would run: systemctl --user daemon-reload".to_owned(),
            cat2("would run: systemctl --user restart ", service.service.as_str()),
        )
    } else {
        two(
            cat2("service: ", service.service.as_str()),
            cat2("override: ", service.override_path.as_str()),
        )
    };
    push_lines(&mut lines, one(cat2("service_file: ", service.service_file.as_str())));
    push_lines(&mut lines, tell_service_start(service));
    lines
}

pub open spec fn service_status(service: ServiceView) -> Seq<Text> {
    seq![
        "service: "@ + service.service,
        "service_file: "@ + service.service_file,
        "override: "@ + service.override_path,
    ] + service_start(service)
}

fn tell_service_status(service: &ServiceRecord) -> (r: Vec<String>)
    ensures
        r.deep_view() == service_status(service.deep_view()),
{
    let mut lines = three(
        cat2("service: ", service.service.as_str()),
        cat2("service_file: ", service.service_file.as_str()),
        cat2("override: ", service.override_path.as_str()),
    );
    push_lines(&mut lines, tell_service_start(service));
    lines
}

impl Reported for ServiceRecord {
    open spec fn lines(style: Style, service: ServiceView) -> Seq<Text> {
        match style {
            Style::Status => service_status(service),
            Style::Doctor => seq![
                "  service: "@ + service.service + " override:"@ + service.override_path,
                verified_line(service.target_blake3),
            ],
            _ => service_change(service, style.is_dry()),
        }
    }

    fn report(&self, style: Style) -> (r: Vec<String>) {
        match style {
            Style::Status => tell_service_status(self),
            Style::Doctor => two(
                cat4(
                    "  service: ",
                    self.service.as_str(),
                    " override:",
                    self.override_path.as_str(),
                ),
                verified_text(&self.target_blake3),
            ),
            _ => tell_service_change(self, style.dry()),
        }
    }
}

// ---- Profiles

pub open spec fn profile_name(profile: Option<Text>) -> Text {
    match profile {
        Some(path) => path,
        None => "default"@,
    }
}

pub(crate) fn profile_display(profile: &Option<String>) -> (r: String)
    ensures
        r@ == profile_name(profile.deep_view()),
{
    match profile {
        Some(path) => path.clone(),
        None => "default".to_owned(),
    }
}

impl Reported for ProfileRecord {
    open spec fn lines(style: Style, profile: ProfileView) -> Seq<Text> {
        match style {
            Style::Doctor => seq![
                "  profile: "@ + profile_name(profile.profile) + " store_path:"@ + profile.store_path,
            ],
            _ => seq![
                "profile: "@ + profile_name(profile.profile),
                "profile_store_path: "@ + profile.store_path,
            ] + listing::if_present("profile_element: "@, profile.element) + seq![
                "profile_priority: "@ + number::signed_decimal(profile.priority as int),
            ],
        }
    }

    fn report(&self, style: Style) -> (r: Vec<String>) {
        match style {
            Style::Doctor => one(
                cat4(
                    "  profile: ",
                    profile_display(&self.profile).as_str(),
                    " store_path:",
                    self.store_path.as_str(),
                ),
            ),
            _ => {
                let mut lines = two(
                    cat2("profile: ", profile_display(&self.profile).as_str()),
                    cat2("profile_store_path: ", self.store_path.as_str()),
                );
                push_present(&mut lines, "profile_element: ", &self.element);
                push_lines(
                    &mut lines,
                    one(cat2("profile_priority: ", i64_text(self.priority).as_str())),
                );
                lines
            },
        }
    }
}

// ---- Modules

/// What is left to the user after a module was written.
pub open spec fn next_step(backend: Text) -> Seq<Text> {
    if backend == "nixos-module"@ {
        seq!["next: import module in NixOS config, then run nixos-rebuild switch"@]
    } else if backend == "home-manager-module"@ {
        seq!["next: import module in Home Manager config, then run home-manager switch"@]
    } else {
        Seq::empty()
    }
}

fn tell_next_step(backend: &str) -> (r: Vec<String>)
    ensures
        r.deep_view() == next_step(backend@),
{
    if same(backend, "nixos-module") {
        one("next: import module in NixOS config, then run nixos-rebuild switch".to_owned())
    } else if same(backend, "home-manager-module") {
        one("next: import module in Home Manager config, then run home-manager switch".to_owned())
    } else {
        let none: Vec<String> = Vec::new();
        assert(none.deep_view() =~= Seq::empty());
        none
    }
}

pub open spec fn module_status(module: ModuleView) -> Seq<Text> {
    seq![
        "module_backend: "@ + module.backend,
        "module: "@ + module.module,
        "overlay: "@ + module.overlay,
    ]
}

fn tell_module_status(module: &ModuleRecord) -> (r: Vec<String>)
    ensures
        r.deep_view() == module_status(module.deep_view()),
{
    three(
        cat2("module_backend: ", module.backend.as_str()),
        cat2("module: ", module.module.as_str()),
        cat2("overlay: ", module.overlay.as_str()),
    )
}

impl Reported for ModuleRecord {
    open spec fn lines(style: Style, module: ModuleView) -> Seq<Text> {
        match style {
            Style::Status => module_status(module),
            Style::Doctor => seq![
                "  module: "@ + module.module + " backend:"@ + module.backend + " overlay:"@
                    + module.overlay,
            ],
            _ => (if style.is_dry() {
                seq!["would write module: "@ + module.module, "would write overlay: "@ + module.overlay]
            } else {
                module_status(module)
            }) + next_step(module.backend),
        }
    }

    fn report(&self, style: Style) -> (r: Vec<String>) {
        match style {
            Style::Status => tell_module_status(self),
            Style::Doctor => one(
                cat6(
                    "  module: ",
                    self.module.as_str(),
                    " backend:",
                    self.backend.as_str(),
                    " overlay:",
                    self.overlay.as_str(),
                ),
            ),
            _ => {
                let mut lines = if style.dry() {
                    two(
                        cat2("would write module: ", self.module.as_str()),
                        cat2("would write overlay: ", self.overlay.as_str()),
                    )
                } else {
                    tell_module_status(self)
                };
                push_lines(&mut lines, tell_next_step(self.backend.as_str()));
                lines
            },
        }
    }
}

// ---- Whole records

/// What a record holds besides links.
pub open spec fn parts_lines(record: RecordView, style: Style) -> Seq<Text> {
    all_lines::<ServiceRecord>(style, record.services) + all_lines::<ProfileRecord>(
        style,
        record.profiles,
    ) + all_lines::<ModuleRecord>(style, record.modules)
}

pub(crate) fn report_parts(record: &ActivationRecord, style: Style) -> (r: Vec<String>)
    ensures
        r.deep_view() == parts_lines(record.deep_view(), style),
{
    let mut lines = report_all(&record.services, style);
    push_lines(&mut lines, report_all(&record.profiles, style));
    push_lines(&mut lines, report_all(&record.modules, style));
    lines
}

/// The warning to show with new links, if there is one.
pub open spec fn link_warning(links: Seq<LinkView>, env: EnvironmentView) -> Seq<Text> {
    if links.len() == 0 {
        Seq::empty()
    } else {
        match keys::hint_for(env) {
            Ok(hint) => listing::if_present("warning: "@, hint),
            Err(_) => Seq::empty(),
        }
    }
}

fn tell_link_warning(links: &Vec<LinkRecord>, env: &Environment) -> (r: Vec<String>)
    ensures
        r.deep_view() == link_warning(links.deep_view(), env.deep_view()),
{
    let mut lines: Vec<String> = Vec::new();
    assert(lines.deep_view() =~= Seq::empty());
    if links.len() > 0 {
        match path_hint(env) {
            Ok(hint) => {
                push_present(&mut lines, "warning: ", &hint);
                assert(lines.deep_view() =~= listing::if_present("warning: "@, hint.deep_view()));
            },
            Err(_) => {},
        }
    }
    lines
}

pub open spec fn enable_lines_of(record: RecordView, dry_run: bool, env: EnvironmentView) -> Seq<Text> {
    let style = Style::Enable { dry_run };
    seq![
        (if dry_run {
            "would enable: "@
        } else {
            "enabled: "@
        }) + record.package,
        "mode: "@ + record.mode,
        "output: "@ + record.build_output,
    ] + all_lines::<LinkRecord>(style, record.links) + link_warning(record.links, env)
        + parts_lines(record, style)
}

/// How an activation is told.
pub fn enable_lines(record: &ActivationRecord, dry_run: bool, env: &Environment) -> (r: Vec<String>)
    ensures
        r.deep_view() == enable_lines_of(record.deep_view(), dry_run, env.deep_view()),
{
    let style = Style::Enable { dry_run };
    let label = if dry_run {
        "would enable: "
    } else {
        "enabled: "
    };
    let mut lines = three(
        cat2(label, record.package.as_str()),
        cat2("mode: ", record.mode.as_str()),
        cat2("output: ", record.build_output.as_str()),
    );
    push_lines(&mut lines, report_all(&record.links, style));
    push_lines(&mut lines, tell_link_warning(&record.links, env));
    push_lines(&mut lines, report_parts(record, style));
    lines
}

pub open spec fn disable_lines_of(record: RecordView, dry_run: bool) -> Seq<Text> {
    let style = Style::Disable { dry_run };
    seq![
        (if dry_run {
            "would disable: "@
        } else {
            "disabled: "@
        }) + record.package,
    ] + all_lines::<LinkRecord>(style, record.links) + parts_lines(record, style)
}

/// How a deactivation is told.
pub fn disable_lines(record: &ActivationRecord, dry_run: bool) -> (r: Vec<String>)
    ensures
        r.deep_view() == disable_lines_of(record.deep_view(), dry_run),
{
    let style = Style::Disable { dry_run };
    let label = if dry_run {
        "would disable: "
    } else {
        "disabled: "
    };
    let mut lines = one(cat2(label, record.package.as_str()));
    push_lines(&mut lines, report_all(&record.links, style));
    push_lines(&mut lines, report_parts(record, style));
    lines
}

// ---- Status

pub open spec fn links_id(links: Seq<LinkView>) -> Seq<Text> {
    text::only_if(links.len() > 0, "path-shim"@)
}

pub open spec fn service_ids(services: Seq<ServiceView>) -> Seq<Text> {
    services.map_values(|service: ServiceView| "systemd-user:"@ + service.service)
}

pub open spec fn profiles_id(profiles: Seq<ProfileView>) -> Seq<Text> {
    text::only_if(profiles.len() > 0, "nix-profile"@)
}

pub open spec fn module_ids(modules: Seq<ModuleView>) -> Seq<Text> {
    modules.map_values(|module: ModuleView| module.backend)
}

/// The targets that a record activates.
pub open spec fn target_ids(record: RecordView) -> Seq<Text> {
    links_id(record.links) + service_ids(record.services) + profiles_id(record.profiles)
        + module_ids(record.modules)
}

fn list_service_ids(services: &Vec<ServiceRecord>) -> (r: Vec<String>)
    ensures
        r.deep_view() == service_ids(services.deep_view()),
{
    let ghost goal = service_ids(services.deep_view());
    let mut ids: Vec<String> = Vec::new();
    let mut i: usize = 0;
    assert(ids.deep_view() =~= goal.take(0));
    while i < services.len()
        invariant
            i <= services@.len(),
            goal == service_ids(services.deep_view()),
            goal.len() == services@.len(),
            ids.deep_view() == goal.take(i as int),
        decreases services@.len() - i,
    {
        assert(services.deep_view()[i as int] == services@[i as int].deep_view());
        push_line(&mut ids, cat2("systemd-user:", services[i].service.as_str()));
        assert(goal.take(i + 1) =~= goal.take(i as int).push(goal[i as int]));
        i += 1;
    }
    assert(goal.take(goal.len() as int) =~= goal);
    ids
}

fn list_module_ids(modules: &Vec<ModuleRecord>) -> (r: Vec<String>)
    ensures
        r.deep_view() == module_ids(modules.deep_view()),
{
    let ghost goal = module_ids(modules.deep_view());
    let mut ids: Vec<String> = Vec::new();
    let mut i: usize = 0;
    assert(ids.deep_view() =~= goal.take(0));
    while i < modules.len()
        invariant
            i <= modules@.len(),
            goal == module_ids(modules.deep_view()),
            goal.len() == modules@.len(),
            ids.deep_view() == goal.take(i as int),
        decreases modules@.len() - i,
    {
        assert(modules.deep_view()[i as int] == modules@[i as int].deep_view());
        push_line(&mut ids, modules[i].backend.clone());
        assert(goal.take(i + 1) =~= goal.take(i as int).push(goal[i as int]));
        i += 1;
    }
    assert(goal.take(goal.len() as int) =~= goal);
    ids
}

fn line_if(condition: bool, line: &str) -> (r: Vec<String>)
    ensures
        r.deep_view() == text::only_if(condition, line@),
{
    if condition {
        one(line.to_owned())
    } else {
        let none: Vec<String> = Vec::new();
        assert(none.deep_view() =~= Seq::empty());
        none
    }
}

pub fn record_target_ids(record: &ActivationRecord) -> (r: Vec<String>)
    ensures
        r.deep_view() == target_ids(record.deep_view()),
{
    let mut ids = line_if(record.links.len() > 0, "path-shim");
    push_lines(&mut ids, list_service_ids(&record.services));
    push_lines(&mut ids, line_if(record.profiles.len() > 0, "nix-profile"));
    push_lines(&mut ids, list_module_ids(&record.modules));
    ids
}

/// The lines with a label in front of each.
pub open spec fn labelled_all(label: Text, lines: Seq<Text>) -> Seq<Text> {
    lines.map_values(|line: Text| label + line)
}

pub(crate) fn label_all(label: &str, lines: &Vec<String>) -> (r: Vec<String>)
    ensures
        r.deep_view() == labelled_all(label@, lines.deep_view()),
{
    let ghost goal = labelled_all(label@, lines.deep_view());
    let mut out: Vec<String> = Vec::new();
    let mut i: usize = 0;
    assert(out.deep_view() =~= goal.take(0));
    while i < lines.len()
        invariant
            i <= lines@.len(),
            goal == labelled_all(label@, lines.deep_view()),
            goal.len() == lines@.len(),
            out.deep_view() == goal.take(i as int),
        decreases lines@.len() - i,
    {
        assert(lines.deep_view()[i as int] == lines@[i as int]@);
        push_line(&mut out, cat2(label, lines[i].as_str()));
        assert(goal.take(i + 1) =~= goal.take(i as int).push(goal[i as int]));
        i += 1;
    }
    assert(goal.take(goal.len() as int) =~= goal);
    out
}

pub open spec fn health_lines(problems: Seq<Text>) -> Seq<Text> {
    if problems.len() == 0 {
        seq!["active: yes"@, "verified: yes"@]
    } else {
        seq!["active: broken"@, "verified: no"@] + labelled_all("reason: "@, problems)
    }
}

fn tell_health(problems: &Vec<String>) -> (r: Vec<String>)
    ensures
        r.deep_view() == health_lines(problems.deep_view()),
{
    if problems.len() == 0 {
        two("active: yes".to_owned(), "verified: yes".to_owned())
    } else {
        let mut lines = two("active: broken".to_owned(), "verified: no".to_owned());
        push_lines(&mut lines, label_all("reason: ", problems));
        lines
    }
}

/// What is told of a fork's activation; `problems` is what is wrong with it.
pub open spec fn activation_lines(record: RecordView, problems: Seq<Text>) -> Seq<Text> {
    health_lines(problems) + seq!["mode: "@ + record.mode, "output: "@ + record.build_output]
        + labelled_all("target: "@, target_ids(record)) + all_lines::<LinkRecord>(
        Style::Status,
        record.links,
    ) + parts_lines(record, Style::Status)
}

fn tell_activation(record: &ActivationRecord, problems: &Vec<String>) -> (r: Vec<String>)
    ensures
        r.deep_view() == activation_lines(record.deep_view(), problems.deep_view()),
{
    let mut lines = tell_health(problems);
    push_lines(
        &mut lines,
        two(
            cat2("mode: ", record.mode.as_str()),
            cat2("output: ", record.build_output.as_str()),
        ),
    );
    push_lines(&mut lines, label_all("target: ", &record_target_ids(record)));
    push_lines(&mut lines, report_all(&record.links, Style::Status));
    push_lines(&mut lines, report_parts(record, Style::Status));
    lines
}

/// Where a fork's source stands.
pub open spec fn source_lines(w: WorkspaceView, repo: RepoView) -> Seq<Text> {
    seq![
        "workspace: "@ + w.root,
        "source: "@ + w.source,
        "fork_point: "@ + repo.base_commit,
        "head: "@ + repo.head_commit,
        "commits_on_top: "@ + listing::count_or_unknown(repo.commits_on_top),
        "dirty: "@ + listing::yes_or_no(repo.dirty),
        "base_commit_present: "@ + listing::yes_or_no(repo.base_commit_present),
    ]
}

fn tell_source(workspace: &Workspace, repo: &RepoState) -> (r: Vec<String>)
    ensures
        r.deep_view() == source_lines(workspace.deep_view(), repo.deep_view()),
{
    let mut lines: Vec<String> = Vec::new();
    push_line(&mut lines, cat2("workspace: ", workspace.root.as_str()));
    push_line(&mut lines, cat2("source: ", workspace.source.as_str()));
    push_line(&mut lines, cat2("fork_point: ", repo.base_commit.as_str()));
    push_line(&mut lines, cat2("head: ", repo.head_commit.as_str()));
    push_line(&mut lines, cat2("commits_on_top: ", count_text(repo.commits_on_top).as_str()));
    push_line(&mut lines, cat2("dirty: ", yes_no(repo.dirty)));
    push_line(&mut lines, cat2("base_commit_present: ", yes_no(repo.base_commit_present)));
    assert(lines.deep_view() =~= source_lines(workspace.deep_view(), repo.deep_view()));
    lines
}

pub open spec fn reference_in(m: MetadataView) -> Text {
    forking::reference_of(keys::display_name_of(m), m.fork.label)
}

fn reference(metadata: &Metadata) -> (r: String)
    ensures
        r@ == reference_in(metadata.deep_view()),
{
    fork_reference(package_display_name(metadata).as_str(), metadata.fork_label())
}

pub open spec fn status_lines_of(
    m: MetadataView,
    w: WorkspaceView,
    repo: RepoView,
    active: Option<RecordView>,
    snapshot: Snapshot,
    listings: Seq<ListingView>,
) -> Seq<Text> {
    seq!["fork: "@ + reference_in(m)] + (match active {
        Some(record) => activation_lines(
            record,
            check::record_problems(record, snapshot, listings),
        ),
        None => seq!["active: no"@],
    }) + source_lines(w, repo)
}

/// How a fork's status is told.
pub fn status_lines(
    metadata: &Metadata,
    workspace: &Workspace,
    repo: &RepoState,
    active: &Option<ActivationRecord>,
    snapshot: &Snapshot,
    listings: &Vec<ProfileListing>,
) -> (r: Vec<String>)
    ensures
        r.deep_view() == status_lines_of(
            metadata.deep_view(),
            workspace.deep_view(),
            repo.deep_view(),
            active.deep_view(),
            *snapshot,
            listings.deep_view(),
        ),
{
    let mut lines = one(cat2("fork: ", reference(metadata).as_str()));
    match active {
        Some(record) => {
            let check = check_record(record.copied(), snapshot, listings);
            push_lines(&mut lines, tell_activation(record, &check.problems));
        },
        None => {
            push_lines(&mut lines, one("active: no".to_owned()));
        },
    }
    push_lines(&mut lines, tell_source(workspace, repo));
    lines
}

// ---- Information

pub open spec fn package_lines(m: MetadataView) -> Seq<Text> {
    listing::if_present("package: "@, m.package.pname) + listing::if_present(
        "name: "@,
        m.package.name,
    ) + listing::if_present("version: "@, m.package.version) + seq![
        "label: "@ + m.fork.label,
        "reference: "@ + reference_in(m),
        "installable: "@ + m.package.installable,
    ] + seq!["attribute: "@ + m.package.attribute, "system: "@ + m.package.system]
}

fn tell_package(metadata: &Metadata) -> (r: Vec<String>)
    ensures
        r.deep_view() == package_lines(metadata.deep_view()),
{
    let mut lines: Vec<String> = Vec::new();
    push_present(&mut lines, "package: ", &metadata.package.pname);
    assert(lines.deep_view() =~= listing::if_present(
        "package: "@,
        metadata.deep_view().package.pname,
    ));
    push_present(&mut lines, "name: ", &metadata.package.name);
    push_present(&mut lines, "version: ", &metadata.package.version);
    push_lines(
        &mut lines,
        three(
            cat2("label: ", metadata.fork_label()),
            cat2("reference: ", reference(metadata).as_str()),
            cat2("installable: ", metadata.package.installable.as_str()),
        ),
    );
    push_lines(
        &mut lines,
        two(
            cat2("attribute: ", metadata.package.attribute.as_str()),
            cat2("system: ", metadata.package.system.as_str()),
        ),
    );
    lines
}

pub open spec fn base_lines(m: MetadataView) -> Seq<Text> {
    seq!["drv: "@ + m.base.derivation, "original_output: "@ + m.base.output] + listing::if_present(
        "original_source: "@,
        m.base.source,
    ) + listing::if_present("source_revision: "@, m.base.source_revision) + listing::if_present(
        "source_hash: "@,
        m.base.source_hash,
    ) + seq![
        "post_patch_source: "@ + m.base.post_patch_source,
        "base_commit: "@ + m.base.git_commit,
    ]
}

fn tell_base(metadata: &Metadata) -> (r: Vec<String>)
    ensures
        r.deep_view() == base_lines(metadata.deep_view()),
{
    let mut lines = two(
        cat2("drv: ", metadata.base.derivation.as_str()),
        cat2("original_output: ", metadata.base.output.as_str()),
    );
    push_present(&mut lines, "original_source: ", &metadata.base.source);
    push_present(&mut lines, "source_revision: ", &metadata.base.source_revision);
    push_present(&mut lines, "source_hash: ", &metadata.base.source_hash);
    push_lines(
        &mut lines,
        two(
            cat2("post_patch_source: ", metadata.base.post_patch_source.as_str()),
            cat2("base_commit: ", metadata.base.git_commit.as_str()),
        ),
    );
    lines
}

pub open spec fn info_lines_of(m: MetadataView, w: WorkspaceView) -> Seq<Text> {
    package_lines(m) + listing::if_present("nixpkgs_revision: "@, m.base.nixpkgs_revision)
        + listing::if_present("nixpkgs_resolved_url: "@, m.base.nixpkgs_resolved_url) + base_lines(
        m,
    ) + seq!["workspace: "@ + w.root, "source: "@ + w.source]
}

/// How a fork is described.
pub fn info_lines(metadata: &Metadata, workspace: &Workspace) -> (r: Vec<String>)
    ensures
        r.deep_view() == info_lines_of(metadata.deep_view(), workspace.deep_view()),
{
    let mut lines = tell_package(metadata);
    push_present(&mut lines, "nixpkgs_revision: ", &metadata.base.nixpkgs_revision);
    push_present(&mut lines, "nixpkgs_resolved_url: ", &metadata.base.nixpkgs_resolved_url);
    push_lines(&mut lines, tell_base(metadata));
    push_lines(
        &mut lines,
        two(
            cat2("workspace: ", workspace.root.as_str()),
            cat2("source: ", workspace.source.as_str()),
        ),
    );
    lines
}

// ---- Backends

pub open spec fn details_lines(details: BackendDetailsView) -> Seq<Text> {
    match details {
        BackendDetailsView::NixProfile { profile, profile_contains_output } => seq![
            "  profile: "@ + profile_name(profile),
            "  profile_contains_output: "@ + listing::yes_or_no(profile_contains_output),
        ],
        BackendDetailsView::NixosModule { module, overlay } => listing::if_present(
            "  module: "@,
            module,
        ) + listing::if_present("  overlay: "@, overlay),
        BackendDetailsView::HomeManagerModule { module, overlay } => listing::if_present(
            "  module: "@,
            module,
        ) + listing::if_present("  overlay: "@, overlay),
        BackendDetailsView::LegacyPathShim { executable_count } => seq![
            "  executable_count: "@ + number::decimal(executable_count),
        ],
        BackendDetailsView::LegacySystemdUserService { service_count } => seq![
            "  service_count: "@ + number::decimal(service_count),
        ],
    }
}

fn tell_module_files(module: &Option<String>, overlay: &Option<String>) -> (r: Vec<String>)
    ensures
        r.deep_view() == listing::if_present("  module: "@, module.deep_view())
            + listing::if_present("  overlay: "@, overlay.deep_view()),
{
    let mut lines: Vec<String> = Vec::new();
    push_present(&mut lines, "  module: ", module);
    assert(lines.deep_view() =~= listing::if_present("  module: "@, module.deep_view()));
    push_present(&mut lines, "  overlay: ", overlay);
    lines
}

fn tell_details(details: &BackendDetails) -> (r: Vec<String>)
    ensures
        r.deep_view() == details_lines(details.deep_view()),
{
    match details {
        BackendDetails::NixProfile { profile, profile_contains_output } => two(
            cat2("  profile: ", profile_display(profile).as_str()),
            cat2("  profile_contains_output: ", yes_no(*profile_contains_output)),
        ),
        BackendDetails::NixosModule { module, overlay } => tell_module_files(module, overlay),
        BackendDetails::HomeManagerModule { module, overlay } => tell_module_files(module, overlay),
        BackendDetails::LegacyPathShim { executable_count } => one(
            cat2("  executable_count: ", usize_text(*executable_count).as_str()),
        ),
        BackendDetails::LegacySystemdUserService { service_count } => one(
            cat2("  service_count: ", usize_text(*service_count).as_str()),
        ),
    }
}

pub open spec fn backend_headline(entry: BackendView) -> Text {
    entry.id + " kind:"@ + entry.kind + " confidence:"@ + entry.confidence + " supported:"@
        + listing::yes_or_no(entry.supported) + " active:"@ + listing::yes_or_no(entry.active)
}

pub open spec fn backend_lines(entry: BackendView) -> Seq<Text> {
    seq![backend_headline(entry)] + details_lines(entry.details) + labelled_all(
        "  evidence: "@,
        entry.evidence,
    )
}

fn tell_backend(entry: &BackendEntry) -> (r: Vec<String>)
    ensures
        r.deep_view() == backend_lines(entry.deep_view()),
{
    let mut head = cat4(entry.id.as_str(), " kind:", entry.kind.as_str(), " confidence:");
    head.append(entry.confidence.as_str());
    head.append(" supported:");
    head.append(yes_no(entry.supported));
    head.append(" active:");
    head.append(yes_no(entry.active));
    let mut lines = one(head);
    push_lines(&mut lines, tell_details(&entry.details));
    push_lines(&mut lines, label_all("  evidence: ", &entry.evidence));
    lines
}

pub open spec fn targets_lines_of(report: BackendReportView) -> Seq<Text> {
    seq!["output: "@ + report.output] + if report.backends.len() == 0 {
        seq!["no Nix activation backends found"@]
    } else {
        text::flat_map(report.backends, |entry: BackendView| backend_lines(entry))
    }
}

/// How the backends on offer are told.
pub fn targets_lines(report: &BackendReport) -> (r: Vec<String>)
    ensures
        r.deep_view() == targets_lines_of(report.deep_view()),
{
    let ghost all = report.backends.deep_view();
    let ghost f = |entry: BackendView| backend_lines(entry);
    let mut lines = one(cat2("output: ", report.output.as_str()));
    if report.backends.len() == 0 {
        push_lines(&mut lines, one("no Nix activation backends found".to_owned()));
        return lines;
    }
    let ghost head = lines.deep_view();
    let mut i: usize = 0;
    assert(lines.deep_view() =~= head + text::flat_map(all.take(0), f));
    while i < report.backends.len()
        invariant
            i <= report.backends@.len(),
            all == report.backends.deep_view(),
            all.len() == report.backends@.len(),
            f == |entry: BackendView| backend_lines(entry),
            lines.deep_view() == head + text::flat_map(all.take(i as int), f),
        decreases report.backends@.len() - i,
    {
        let ghost before = lines.deep_view();
        proof {
            text::lemma_flat_map_step(all, f, i as int);
        }
        assert(all[i as int] == report.backends@[i as int].deep_view());
        push_lines(&mut lines, tell_backend(&report.backends[i]));
        assert(lines.deep_view() =~= head + text::flat_map(all.take(i + 1), f));
        i += 1;
    }
    assert(all.take(all.len() as int) =~= all);
    lines
}

// ---- Sharing

pub open spec fn export_lines_of(summary: ExportSummaryView) -> Seq<Text> {
    seq![
        "exported: "@ + summary.artifact,
        "base_commit: "@ + summary.base_commit,
        "head: "@ + summary.head_commit,
        "commits: "@ + number::decimal(summary.commit_count as nat),
    ]
}

/// How an export is told.
pub fn export_lines(summary: &ExportSummary) -> (r: Vec<String>)
    ensures
        r.deep_view() == export_lines_of(summary.deep_view()),
{
    let mut lines = three(
        cat2("exported: ", summary.artifact.as_str()),
        cat2("base_commit: ", summary.base_commit.as_str()),
        cat2("head: ", summary.head_commit.as_str()),
    );
    push_line(&mut lines, cat2("commits: ", u64_text(summary.commit_count).as_str()));
    lines
}

pub open spec fn import_lines_of(summary: ImportSummaryView) -> Seq<Text> {
    seq![
        "imported: "@ + summary.artifact,
        "method: "@ + summary.method,
        "base_commit: "@ + summary.base_commit,
        "head: "@ + summary.head_commit,
        "commits: "@ + number::decimal(summary.commit_count as nat),
    ]
}

/// How an import is told.
pub fn import_lines(summary: &ImportSummary) -> (r: Vec<String>)
    ensures
        r.deep_view() == import_lines_of(summary.deep_view()),
{
    let mut lines = three(
        cat2("imported: ", summary.artifact.as_str()),
        cat2("method: ", summary.method),
        cat2("base_commit: ", summary.base_commit.as_str()),
    );
    push_line(&mut lines, cat2("head: ", summary.head_commit.as_str()));
    push_line(&mut lines, cat2("commits: ", u64_text(summary.commit_count).as_str()));
    lines
}

pub open spec fn apply_lines_of(patch: Text, from_stdin: bool, repo: RepoView) -> Seq<Text> {
    seq![
        "applied: "@ + (if from_stdin {
            "stdin"@
        } else {
            patch
        }),
        "method: git-am"@,
        "base_commit: "@ + repo.base_commit,
        "head: "@ + repo.head_commit,
        "commits_on_top: "@ + listing::count_or_unknown(repo.commits_on_top),
    ]
}

/// How a patch that was applied is told; `patch` is its file.
pub fn apply_lines(patch: &str, from_stdin: bool, repo: &RepoState) -> (r: Vec<String>)
    ensures
        r.deep_view() == apply_lines_of(patch@, from_stdin, repo.deep_view()),
{
    let shown = if from_stdin {
        "stdin"
    } else {
        patch
    };
    let mut lines = three(
        cat2("applied: ", shown),
        "method: git-am".to_owned(),
        cat2("base_commit: ", repo.base_commit.as_str()),
    );
    push_line(&mut lines, cat2("head: ", repo.head_commit.as_str()));
    push_line(&mut lines, cat2("commits_on_top: ", count_text(repo.commits_on_top).as_str()));
    lines
}

// ---- Switching

/// What is done about switching once an activation is in place.
#[derive(Debug, Clone)]
pub enum SwitchStep {
    Nothing,
    Tell { line: String },
    Run { notice: String, command: SwitchCommand },
}

pub enum SwitchStepView {
    Nothing,
    Tell { line: Text },
    Run { notice: Text, command: backends::SwitchView },
}

impl DeepView for SwitchStep {
    type V = SwitchStepView;

    open spec fn deep_view(&self) -> SwitchStepView {
        match self {
            SwitchStep::Nothing => SwitchStepView::Nothing,
            SwitchStep::Tell { line } => SwitchStepView::Tell { line: line@ },
            SwitchStep::Run { notice, command } => SwitchStepView::Run {
                notice: notice@,
                command: command.deep_view(),
            },
        }
    }
}

pub open spec fn switch_step_of(
    backend: ActivationBackend,
    switch: bool,
    flake: Option<Text>,
    dry_run: bool,
) -> Result<SwitchStepView, Text> {
    if !switch {
        Ok(SwitchStepView::Nothing)
    } else {
        match backends::switch_of(backend, flake) {
            Err(problem) => Err(problem),
            Ok(command) => {
                let shown = text::joined(backends::words_of(command), " "@);
                if dry_run {
                    Ok(SwitchStepView::Tell { line: "would run: "@ + shown })
                } else {
                    Ok(SwitchStepView::Run { notice: "running "@ + shown, command })
                }
            },
        }
    }
}

pub fn maybe_switch_backend(
    backend: ActivationBackend,
    switch: bool,
    flake: Option<&str>,
    dry_run: bool,
) -> (r: Result<SwitchStep, Error>)
    ensures
        text::outcome(r) == switch_step_of(
            backend,
            switch,
            match flake {
                Some(flake) => Some(flake@),
                None => None,
            },
            dry_run,
        ),
{
    if !switch {
        return Ok(SwitchStep::Nothing);
    }
    match switch_command(backend, flake) {
        Err(error) => Err(error),
        Ok(command) => {
            let shown = command.display();
            if dry_run {
                Ok(SwitchStep::Tell { line: cat2("would run: ", shown.as_str()) })
            } else {
                Ok(SwitchStep::Run { notice: cat2("running ", shown.as_str()), command })
            }
        },
    }
}

/// An activation whose options were accepted never fails for want of a switch command.
pub proof fn accepted_options_can_switch(
    requested: ActivationBackend,
    is_nixos: bool,
    facts: crate::targets::OutputFacts,
    has_profile: bool,
    switch: bool,
    flake: Option<Text>,
    dry_run: bool,
)
    ensures
        backends::selected(requested, is_nixos, facts) matches Ok(backend) ==> (
        backends::options_refusal(backend, has_profile, switch, flake is Some) is None
            ==> switch_step_of(backend, switch, flake, dry_run) is Ok),
{
    backends::selection_is_definite(requested, is_nixos, facts);
}

} // verus!
