//! The record of one activation, as it is kept on disk.
use vstd::prelude::*;

use crate::copying::Copied;
use crate::order::Ranked;
use crate::paths::{self, path_not_after};
use crate::text::Text;

verus! {

#[derive(Debug, Clone)]
pub struct ActivationRecord {
    pub format: u32,
    pub key: String,
    pub mode: String,
    pub package: String,
    pub installable: String,
    pub workspace: String,
    pub source: String,
    pub build_output: String,
    pub activated_at_unix: u64,
    pub links: Vec<LinkRecord>,
    pub services: Vec<ServiceRecord>,
    pub profiles: Vec<ProfileRecord>,
    pub modules: Vec<ModuleRecord>,
}

/// A symbolic link that shadows a command.
#[derive(Debug, Clone)]
pub struct LinkRecord {
    pub name: String,
    pub link: String,
    pub target: String,
    pub target_blake3: Option<String>,
    pub previous: PreviousLink,
}

/// A systemd user service that an override points at the fork.
#[derive(Debug, Clone)]
pub struct ServiceRecord {
    pub service: String,
    pub service_file: String,
    pub override_path: String,
    pub exec_start: String,
    pub target: String,
    pub target_blake3: Option<String>,
}

/// A store path installed in a Nix profile.
#[derive(Debug, Clone)]
pub struct ProfileRecord {
    pub profile: Option<String>,
    pub store_path: String,
    pub element: Option<String>,
    pub priority: i64,
}

/// A generated overlay and the module that uses it.
#[derive(Debug, Clone)]
pub struct ModuleRecord {
    pub backend: String,
    pub overlay: String,
    pub module: String,
}

/// What stood at a link's path before the activation.
#[derive(Debug, Clone)]
pub enum PreviousLink {
    Absent,
    BackedUp { backup: String },
}

/// A record with what is wrong with the activation it describes.
#[derive(Debug, Clone)]
pub struct ActivationCheck {
    pub record: ActivationRecord,
    pub problems: Vec<String>,
}

/// A record file, readable or not.
#[derive(Debug, Clone)]
pub enum ActivationRecordEntry {
    Valid { path: String, record: Box<ActivationRecord> },
    Broken { path: String, problem: String },
}

pub struct RecordView {
    pub format: u32,
    pub key: Text,
    pub mode: Text,
    pub package: Text,
    pub installable: Text,
    pub workspace: Text,
    pub source: Text,
    pub build_output: Text,
    pub activated_at_unix: u64,
    pub links: Seq<LinkView>,
    pub services: Seq<ServiceView>,
    pub profiles: Seq<ProfileView>,
    pub modules: Seq<ModuleView>,
}

pub struct LinkView {
    pub name: Text,
    pub link: Text,
    pub target: Text,
    pub target_blake3: Option<Text>,
    pub previous: PreviousView,
}

pub struct ServiceView {
    pub service: Text,
    pub service_file: Text,
    pub override_path: Text,
    pub exec_start: Text,
    pub target: Text,
    pub target_blake3: Option<Text>,
}

pub struct ProfileView {
    pub profile: Option<Text>,
    pub store_path: Text,
    pub element: Option<Text>,
    pub priority: i64,
}

pub struct ModuleView {
    pub backend: Text,
    pub overlay: Text,
    pub module: Text,
}

pub enum PreviousView {
    Absent,
    BackedUp { backup: Text },
}

pub struct CheckView {
    pub record: RecordView,
    pub problems: Seq<Text>,
}

pub enum EntryView {
    Valid { path: Text, record: RecordView },
    Broken { path: Text, problem: Text },
}

impl DeepView for PreviousLink {
    type V = PreviousView;

    open spec fn deep_view(&self) -> PreviousView {
        match self {
            PreviousLink::Absent => PreviousView::Absent,
            PreviousLink::BackedUp { backup } => PreviousView::BackedUp { backup: backup@ },
        }
    }
}

impl DeepView for LinkRecord {
    type V = LinkView;

    open spec fn deep_view(&self) -> LinkView {
        LinkView {
            name: self.name@,
            link: self.link@,
            target: self.target@,
            target_blake3: self.target_blake3.deep_view(),
            previous: self.previous.deep_view(),
        }
    }
}

impl DeepView for ServiceRecord {
    type V = ServiceView;

    open spec fn deep_view(&self) -> ServiceView {
        ServiceView {
            service: self.service@,
            service_file: self.service_file@,
            override_path: self.override_path@,
            exec_start: self.exec_start@,
            target: self.target@,
            target_blake3: self.target_blake3.deep_view(),
        }
    }
}

impl DeepView for ProfileRecord {
    type V = ProfileView;

    open spec fn deep_view(&self) -> ProfileView {
        ProfileView {
            profile: self.profile.deep_view(),
            store_path: self.store_path@,
            element: self.element.deep_view(),
            priority: self.priority,
        }
    }
}

impl DeepView for ModuleRecord {
    type V = ModuleView;

    open spec fn deep_view(&self) -> ModuleView {
        ModuleView { backend: self.backend@, overlay: self.overlay@, module: self.module@ }
    }
}

impl DeepView for ActivationRecord {
    type V = RecordView;

    open spec fn deep_view(&self) -> RecordView {
        RecordView {
            format: self.format,
            key: self.key@,
            mode: self.mode@,
            package: self.package@,
            installable: self.installable@,
            workspace: self.workspace@,
            source: self.source@,
            build_output: self.build_output@,
            activated_at_unix: self.activated_at_unix,
            links: self.links.deep_view(),
            services: self.services.deep_view(),
            profiles: self.profiles.deep_view(),
            modules: self.modules.deep_view(),
        }
    }
}

impl DeepView for ActivationCheck {
    type V = CheckView;

    open spec fn deep_view(&self) -> CheckView {
        CheckView { record: self.record.deep_view(), problems: self.problems.deep_view() }
    }
}

impl DeepView for ActivationRecordEntry {
    type V = EntryView;

    open spec fn deep_view(&self) -> EntryView {
        match self {
            ActivationRecordEntry::Valid { path, record } => EntryView::Valid {
                path: path@,
                record: record.deep_view(),
            },
            ActivationRecordEntry::Broken { path, problem } => EntryView::Broken {
                path: path@,
                problem: problem@,
            },
        }
    }
}

impl Copied for PreviousLink {
    fn copied(&self) -> (r: Self) {
        match self {
            PreviousLink::Absent => PreviousLink::Absent,
            PreviousLink::BackedUp { backup } => PreviousLink::BackedUp { backup: backup.clone() },
        }
    }
}

impl Copied for LinkRecord {
    fn copied(&self) -> (r: Self) {
        LinkRecord {
            name: self.name.clone(),
            link: self.link.clone(),
            target: self.target.clone(),
            target_blake3: self.target_blake3.copied(),
            previous: self.previous.copied(),
        }
    }
}

impl Copied for ServiceRecord {
    fn copied(&self) -> (r: Self) {
        ServiceRecord {
            service: self.service.clone(),
            service_file: self.service_file.clone(),
            override_path: self.override_path.clone(),
            exec_start: self.exec_start.clone(),
            target: self.target.clone(),
            target_blake3: self.target_blake3.copied(),
        }
    }
}

impl Copied for ProfileRecord {
    fn copied(&self) -> (r: Self) {
        ProfileRecord {
            profile: self.profile.copied(),
            store_path: self.store_path.clone(),
            element: self.element.copied(),
            priority: self.priority,
        }
    }
}

impl Copied for ModuleRecord {
    fn copied(&self) -> (r: Self) {
        ModuleRecord {
            backend: self.backend.clone(),
            overlay: self.overlay.clone(),
            module: self.module.clone(),
        }
    }
}

impl Copied for ActivationRecord {
    fn copied(&self) -> (r: Self) {
        ActivationRecord {
            format: self.format,
            key: self.key.clone(),
            mode: self.mode.clone(),
            package: self.package.clone(),
            installable: self.installable.clone(),
            workspace: self.workspace.clone(),
            source: self.source.clone(),
            build_output: self.build_output.clone(),
            activated_at_unix: self.activated_at_unix,
            links: self.links.copied(),
            services: self.services.copied(),
            profiles: self.profiles.copied(),
            modules: self.modules.copied(),
        }
    }
}

impl ActivationCheck {
    pub fn is_ok(&self) -> (r: bool)
        ensures
            r == (self.deep_view().problems.len() == 0),
    {
        self.problems.len() == 0
    }
}

impl EntryView {
    pub open spec fn path(self) -> Text {
        match self {
            EntryView::Valid { path, .. } => path,
            EntryView::Broken { path, .. } => path,
        }
    }
}

impl ActivationRecordEntry {
    pub fn path(&self) -> (r: &str)
        ensures
            r@ == self.deep_view().path(),
    {
        match self {
            ActivationRecordEntry::Valid { path, .. } => path.as_str(),
            ActivationRecordEntry::Broken { path, .. } => path.as_str(),
        }
    }
}

/// Entries are listed by the path of their file.
impl Ranked for ActivationRecordEntry {
    open spec fn le(a: EntryView, b: EntryView) -> bool {
        paths::path_le(a.path(), b.path())
    }

    proof fn le_is_total(a: EntryView, b: EntryView) {
        paths::path_le_total(a.path(), b.path());
    }

    proof fn le_is_transitive(a: EntryView, b: EntryView, c: EntryView) {
        paths::path_le_transitive(a.path(), b.path(), c.path());
    }

    fn not_after(&self, other: &Self) -> (r: bool) {
        path_not_after(self.path(), other.path())
    }
}

} // verus!
