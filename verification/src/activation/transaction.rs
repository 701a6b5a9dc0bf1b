//! Changing the machine in steps that are taken back where one of them fails.
//!
//! A transaction never acts itself: it names the next action, is told what came of
//! it, and decides how to go on.
use vstd::prelude::*;

use crate::activation::profiles::{self, find_profile_element, ElementView, ListingRead};
use crate::command::{self, exit_error};
use crate::copying::Copied;
use crate::paths::{self, file_name, join, parent_of};
use crate::text::{self, cat2, cat3, cat4, Text};

verus! {

// ---- Actions

/// One thing to do to the machine.
#[derive(Debug, Clone)]
pub enum Action {
    MakeDirs { path: String },
    /// Looks whether anything stands at the path itself.
    Inspect { path: String },
    MakeLink { target: String, link: String },
    Rename { from: String, to: String },
    RemoveFile { path: String },
    /// Removes a directory; one that is missing or not empty is left alone.
    RemoveDir { path: String },
    /// Writes a new file beside the path and moves it there.
    WriteFile { path: String, temporary: String, text: String },
    Overwrite { path: String, text: String },
    ReadText { path: String },
    Systemctl { arguments: Vec<String> },
    ListProfile { profile: Option<String>, store_path: String },
    AddProfile { profile: Option<String>, store_path: String, priority: i64 },
    RemoveProfile { profile: Option<String>, store_path: String },
    /// Cannot be done at all.
    Refuse { message: String },
}

pub enum ActionView {
    MakeDirs { path: Text },
    Inspect { path: Text },
    MakeLink { target: Text, link: Text },
    Rename { from: Text, to: Text },
    RemoveFile { path: Text },
    RemoveDir { path: Text },
    WriteFile { path: Text, temporary: Text, text: Text },
    Overwrite { path: Text, text: Text },
    ReadText { path: Text },
    Systemctl { arguments: Seq<Text> },
    ListProfile { profile: Option<Text>, store_path: Text },
    AddProfile { profile: Option<Text>, store_path: Text, priority: i64 },
    RemoveProfile { profile: Option<Text>, store_path: Text },
    Refuse { message: Text },
}

impl DeepView for Action {
    type V = ActionView;

    open spec fn deep_view(&self) -> ActionView {
        match self {
            Action::MakeDirs { path } => ActionView::MakeDirs { path: path@ },
            Action::Inspect { path } => ActionView::Inspect { path: path@ },
            Action::MakeLink { target, link } => ActionView::MakeLink {
                target: target@,
                link: link@,
            },
            Action::Rename { from, to } => ActionView::Rename { from: from@, to: to@ },
            Action::RemoveFile { path } => ActionView::RemoveFile { path: path@ },
            Action::RemoveDir { path } => ActionView::RemoveDir { path: path@ },
            Action::WriteFile { path, temporary, text } => ActionView::WriteFile {
                path: path@,
                temporary: temporary@,
                text: text@,
            },
            Action::Overwrite { path, text } => ActionView::Overwrite { path: path@, text: text@ },
            Action::ReadText { path } => ActionView::ReadText { path: path@ },
            Action::Systemctl { arguments } => ActionView::Systemctl {
                arguments: arguments.deep_view(),
            },
            Action::ListProfile { profile, store_path } => ActionView::ListProfile {
                profile: profile.deep_view(),
                store_path: store_path@,
            },
            Action::AddProfile { profile, store_path, priority } => ActionView::AddProfile {
                profile: profile.deep_view(),
                store_path: store_path@,
                priority: *priority,
            },
            Action::RemoveProfile { profile, store_path } => ActionView::RemoveProfile {
                profile: profile.deep_view(),
                store_path: store_path@,
            },
            Action::Refuse { message } => ActionView::Refuse { message: message@ },
        }
    }
}

/// Why an action failed.
#[derive(Debug, Clone)]
pub enum Failure {
    Failed { cause: String },
    /// A command ran and failed.
    Exited { status: String, stderr: String },
    /// The new file of a write could not be created, written or synced.
    NotCreated { cause: String },
    NotWritten { cause: String },
    NotSynced { cause: String },
}

pub enum FailureView {
    Failed { cause: Text },
    Exited { status: Text, stderr: Text },
    NotCreated { cause: Text },
    NotWritten { cause: Text },
    NotSynced { cause: Text },
}

impl DeepView for Failure {
    type V = FailureView;

    open spec fn deep_view(&self) -> FailureView {
        match self {
            Failure::Failed { cause } => FailureView::Failed { cause: cause@ },
            Failure::Exited { status, stderr } => FailureView::Exited {
                status: status@,
                stderr: stderr@,
            },
            Failure::NotCreated { cause } => FailureView::NotCreated { cause: cause@ },
            Failure::NotWritten { cause } => FailureView::NotWritten { cause: cause@ },
            Failure::NotSynced { cause } => FailureView::NotSynced { cause: cause@ },
        }
    }
}

/// What came of an action. Looking reads `present`, reading a file `text`, and
/// listing a profile `listing`; the other actions read none of them.
#[derive(Debug, Clone)]
pub struct Reply {
    pub failure: Option<Failure>,
    pub present: bool,
    pub text: String,
    pub listing: ListingRead,
}

pub struct ReplyView {
    pub failure: Option<FailureView>,
    pub present: bool,
    pub text: Text,
    pub listing: Result<Seq<ElementView>, Text>,
}

impl DeepView for Reply {
    type V = ReplyView;

    open spec fn deep_view(&self) -> ReplyView {
        ReplyView {
            failure: self.failure.deep_view(),
            present: self.present,
            text: self.text@,
            listing: self.listing.deep_view(),
        }
    }
}

// ---- Steps

/// When a step is taken, as to what the last look saw.
#[derive(Debug, Clone, Copy, PartialEq, Eq, Structural)]
pub enum When {
    Always,
    IfSeen,
    IfUnseen,
}

impl When {
    pub open spec fn holds(self, seen: bool) -> bool {
        match self {
            When::Always => true,
            When::IfSeen => seen,
            When::IfUnseen => !seen,
        }
    }
}

/// What the failure of a step means.
#[derive(Debug, Clone, Copy, PartialEq, Eq, Structural)]
pub enum Severity {
    /// Nothing more is done of what was begun.
    Abort,
    /// The failure is kept, and the next entry is taken back all the same.
    Collect,
    Ignore,
}

/// What has been done and can be taken back.
#[derive(Debug, Clone)]
pub enum Undo {
    RemoveCreated { link: String },
    RestorePrevious { link: String, backup: String },
    RemoveCreatedServiceOverride { service: String, override_path: String },
    RecreateActiveLink { link: String, target: String },
    MoveRestoredBack { link: String, target: String, backup: String },
    RestoreServiceOverride { service: String, override_path: String, text: String },
    ReinstallProfile { profile: Option<String>, store_path: String, priority: i64 },
    RestoreModule { module: String, text: String },
}

pub enum UndoView {
    RemoveCreated { link: Text },
    RestorePrevious { link: Text, backup: Text },
    RemoveCreatedServiceOverride { service: Text, override_path: Text },
    RecreateActiveLink { link: Text, target: Text },
    MoveRestoredBack { link: Text, target: Text, backup: Text },
    RestoreServiceOverride { service: Text, override_path: Text, text: Text },
    ReinstallProfile { profile: Option<Text>, store_path: Text, priority: i64 },
    RestoreModule { module: Text, text: Text },
}

impl DeepView for Undo {
    type V = UndoView;

    open spec fn deep_view(&self) -> UndoView {
        match self {
            Undo::RemoveCreated { link } => UndoView::RemoveCreated { link: link@ },
            Undo::RestorePrevious { link, backup } => UndoView::RestorePrevious {
                link: link@,
                backup: backup@,
            },
            Undo::RemoveCreatedServiceOverride {
                service,
                override_path,
            } => UndoView::RemoveCreatedServiceOverride {
                service: service@,
                override_path: override_path@,
            },
            Undo::RecreateActiveLink { link, target } => UndoView::RecreateActiveLink {
                link: link@,
                target: target@,
            },
            Undo::MoveRestoredBack { link, target, backup } => UndoView::MoveRestoredBack {
                link: link@,
                target: target@,
                backup: backup@,
            },
            Undo::RestoreServiceOverride {
                service,
                override_path,
                text,
            } => UndoView::RestoreServiceOverride {
                service: service@,
                override_path: override_path@,
                text: text@,
            },
            Undo::ReinstallProfile { profile, store_path, priority } => UndoView::ReinstallProfile {
                profile: profile.deep_view(),
                store_path: store_path@,
                priority: *priority,
            },
            Undo::RestoreModule { module, text } => UndoView::RestoreModule {
                module: module@,
                text: text@,
            },
        }
    }
}

/// What a step adds to what can be taken back. The text that was last read takes
/// the place of the text in an entry that restores one.
#[derive(Debug, Clone)]
pub enum Note {
    Nothing,
    Push { undo: Undo },
    /// The new entry takes the place of the last one.
    Replace { undo: Undo },
}

pub enum NoteView {
    Nothing,
    Push { undo: UndoView },
    Replace { undo: UndoView },
}

impl DeepView for Note {
    type V = NoteView;

    open spec fn deep_view(&self) -> NoteView {
        match self {
            Note::Nothing => NoteView::Nothing,
            Note::Push { undo } => NoteView::Push { undo: undo.deep_view() },
            Note::Replace { undo } => NoteView::Replace { undo: undo.deep_view() },
        }
    }
}

#[derive(Debug, Clone)]
pub struct Step {
    pub when: When,
    pub action: Action,
    /// What is told before the cause where the action fails.
    pub context: String,
    pub severity: Severity,
    pub note: Note,
}

pub struct StepView {
    pub when: When,
    pub action: ActionView,
    pub context: Text,
    pub severity: Severity,
    pub note: NoteView,
}

impl DeepView for Step {
    type V = StepView;

    open spec fn deep_view(&self) -> StepView {
        StepView {
            when: self.when,
            action: self.action.deep_view(),
            context: self.context@,
            severity: self.severity,
            note: self.note.deep_view(),
        }
    }
}

/// The command that an action runs.
pub open spec fn label_of(action: ActionView) -> Text {
    match action {
        ActionView::Systemctl { .. } => "systemctl --user"@,
        ActionView::AddProfile { .. } => "nix profile add"@,
        ActionView::RemoveProfile { .. } => "nix profile remove"@,
        _ => Seq::empty(),
    }
}

/// The new file that an action writes first.
pub open spec fn temporary_of(action: ActionView) -> Text {
    match action {
        ActionView::WriteFile { temporary, .. } => temporary,
        _ => Seq::empty(),
    }
}

/// How the failure of a step is told.
pub open spec fn failure_message(step: StepView, failure: FailureView) -> Text {
    match failure {
        FailureView::Failed { cause } => step.context + ": "@ + cause,
        FailureView::Exited { status, stderr } => command::exit_message(
            label_of(step.action),
            status,
            stderr,
        ),
        FailureView::NotCreated { cause } => "failed to create "@ + temporary_of(step.action)
            + ": "@ + cause,
        FailureView::NotWritten { cause } => "failed to write "@ + temporary_of(step.action)
            + ": "@ + cause,
        FailureView::NotSynced { cause } => "failed to sync "@ + temporary_of(step.action) + ": "@
            + cause,
    }
}

fn tell_failure(step: &Step, failure: &Failure) -> (r: String)
    ensures
        r@ == failure_message(step.deep_view(), failure.deep_view()),
{
    let label = match &step.action {
        Action::Systemctl { .. } => "systemctl --user".to_owned(),
        Action::AddProfile { .. } => "nix profile add".to_owned(),
        Action::RemoveProfile { .. } => "nix profile remove".to_owned(),
        _ => String::new(),
    };
    let temporary = match &step.action {
        Action::WriteFile { temporary, .. } => temporary.clone(),
        _ => String::new(),
    };
    match failure {
        Failure::Failed { cause } => cat3(step.context.as_str(), ": ", cause.as_str()),
        Failure::Exited { status, stderr } => exit_error(
            label.as_str(),
            status.as_str(),
            stderr.as_str(),
        ),
        Failure::NotCreated { cause } => cat4(
            "failed to create ",
            temporary.as_str(),
            ": ",
            cause.as_str(),
        ),
        Failure::NotWritten { cause } => cat4(
            "failed to write ",
            temporary.as_str(),
            ": ",
            cause.as_str(),
        ),
        Failure::NotSynced { cause } => cat4(
            "failed to sync ",
            temporary.as_str(),
            ": ",
            cause.as_str(),
        ),
    }
}

// ---- Making steps

/// A step that is always taken and ends everything where it fails.
pub open spec fn firm(action: ActionView, context: Text) -> StepView {
    StepView {
        when: When::Always,
        action,
        context,
        severity: Severity::Abort,
        note: NoteView::Nothing,
    }
}

pub(crate) fn firm_step(action: Action, context: String) -> (r: Step)
    ensures
        r.deep_view() == firm(action.deep_view(), context@),
{
    Step { when: When::Always, action, context, severity: Severity::Abort, note: Note::Nothing }
}

/// A step that cannot succeed.
pub open spec fn impossible(message: Text) -> StepView {
    firm(ActionView::Refuse { message }, Seq::empty())
}

pub(crate) fn impossible_step(message: String) -> (r: Step)
    ensures
        r.deep_view() == impossible(message@),
{
    firm_step(Action::Refuse { message }, String::new())
}

pub open spec fn make_dirs(path: Text, told: Text) -> StepView {
    firm(ActionView::MakeDirs { path }, "failed to create "@ + told)
}

pub(crate) fn make_dirs_step(path: String, told: &str) -> (r: Step)
    ensures
        r.deep_view() == make_dirs(path@, told@),
{
    firm_step(Action::MakeDirs { path }, cat2("failed to create ", told))
}

pub open spec fn inspect(path: Text) -> StepView {
    firm(ActionView::Inspect { path }, "failed to inspect "@ + path)
}

pub(crate) fn inspect_step(path: &String) -> (r: Step)
    ensures
        r.deep_view() == inspect(path@),
{
    firm_step(
        Action::Inspect { path: path.clone() },
        cat2("failed to inspect ", path.as_str()),
    )
}

pub open spec fn make_link(target: Text, link: Text) -> StepView {
    firm(
        ActionView::MakeLink { target, link },
        "failed to link "@ + link + " to "@ + target,
    )
}

pub(crate) fn make_link_step(target: &String, link: &String) -> (r: Step)
    ensures
        r.deep_view() == make_link(target@, link@),
{
    firm_step(
        Action::MakeLink { target: target.clone(), link: link.clone() },
        cat4("failed to link ", link.as_str(), " to ", target.as_str()),
    )
}

pub open spec fn rename(from: Text, to: Text, context: Text) -> StepView {
    firm(ActionView::Rename { from, to }, context)
}

pub(crate) fn rename_step(from: &String, to: &String, context: String) -> (r: Step)
    ensures
        r.deep_view() == rename(from@, to@, context@),
{
    firm_step(Action::Rename { from: from.clone(), to: to.clone() }, context)
}

pub open spec fn remove_file(path: Text, told: Text) -> StepView {
    firm(ActionView::RemoveFile { path }, told + path)
}

pub(crate) fn remove_file_step(path: &String, told: &str) -> (r: Step)
    ensures
        r.deep_view() == remove_file(path@, told@),
{
    firm_step(Action::RemoveFile { path: path.clone() }, cat2(told, path.as_str()))
}

/// Tidying up: a failure changes nothing.
pub open spec fn remove_dir(path: Text) -> StepView {
    StepView {
        severity: Severity::Ignore,
        ..firm(ActionView::RemoveDir { path }, "failed to remove "@ + path)
    }
}

pub(crate) fn remove_dir_step(path: String) -> (r: Step)
    ensures
        r.deep_view() == remove_dir(path@),
{
    let context = cat2("failed to remove ", path.as_str());
    let mut step = firm_step(Action::RemoveDir { path }, context);
    step.severity = Severity::Ignore;
    step
}

pub open spec fn read_text(path: Text, told: Text) -> StepView {
    firm(ActionView::ReadText { path }, told + path)
}

pub(crate) fn read_text_step(path: &String, told: &str) -> (r: Step)
    ensures
        r.deep_view() == read_text(path@, told@),
{
    firm_step(Action::ReadText { path: path.clone() }, cat2(told, path.as_str()))
}

pub open spec fn write_file(path: Text, temporary: Text, text: Text) -> StepView {
    firm(
        ActionView::WriteFile { path, temporary, text },
        "failed to move "@ + temporary + " to "@ + path,
    )
}

pub(crate) fn write_file_step(path: String, temporary: String, text: String) -> (r: Step)
    ensures
        r.deep_view() == write_file(path@, temporary@, text@),
{
    let context = cat4("failed to move ", temporary.as_str(), " to ", path.as_str());
    firm_step(Action::WriteFile { path, temporary, text }, context)
}

pub open spec fn systemctl(arguments: Seq<Text>) -> StepView {
    firm(ActionView::Systemctl { arguments }, "failed to execute systemctl --user"@)
}

pub open spec fn reload() -> StepView {
    systemctl(seq!["daemon-reload"@])
}

pub(crate) fn reload_step() -> (r: Step)
    ensures
        r.deep_view() == reload(),
{
    let mut arguments: Vec<String> = Vec::new();
    arguments.push("daemon-reload".to_owned());
    assert(arguments.deep_view() =~= seq!["daemon-reload"@]);
    firm_step(Action::Systemctl { arguments }, "failed to execute systemctl --user".to_owned())
}

pub open spec fn restart(service: Text) -> StepView {
    systemctl(seq!["restart"@, service])
}

pub(crate) fn restart_step(service: &String) -> (r: Step)
    ensures
        r.deep_view() == restart(service@),
{
    let mut arguments: Vec<String> = Vec::new();
    arguments.push("restart".to_owned());
    arguments.push(service.clone());
    assert(arguments.deep_view() =~= seq!["restart"@, service@]);
    firm_step(Action::Systemctl { arguments }, "failed to execute systemctl --user".to_owned())
}

pub open spec fn add_profile(profile: Option<Text>, store_path: Text, priority: i64) -> StepView {
    firm(
        ActionView::AddProfile { profile, store_path, priority },
        "failed to execute nix profile add"@,
    )
}

pub(crate) fn add_profile_step(profile: &Option<String>, store_path: &String, priority: i64) -> (r:
    Step)
    ensures
        r.deep_view() == add_profile(profile.deep_view(), store_path@, priority),
{
    firm_step(
        Action::AddProfile {
            profile: profile.copied(),
            store_path: store_path.clone(),
            priority,
        },
        "failed to execute nix profile add".to_owned(),
    )
}

pub(crate) fn push_step(steps: &mut Vec<Step>, step: Step)
    ensures
        final(steps).deep_view() == old(steps).deep_view().push(step.deep_view()),
{
    let ghost before = steps.deep_view();
    steps.push(step);
    assert(steps.deep_view() =~= before.push(step.deep_view()));
}

pub(crate) fn push_steps(steps: &mut Vec<Step>, more: Vec<Step>)
    ensures
        final(steps).deep_view() == old(steps).deep_view() + more.deep_view(),
{
    let mut more = more;
    let ghost before = steps.deep_view();
    let ghost added = more.deep_view();
    steps.append(&mut more);
    assert(steps.deep_view() =~= before + added);
}

/// The name of the file that is written beside `path` and then moved there.
pub open spec fn temporary_beside(parent: Text, name: Text, stamp: Text) -> Text {
    paths::joined(parent, "."@ + name + ".tmp."@ + stamp)
}

pub(crate) fn beside(parent: &str, name: &str, stamp: &str) -> (r: String)
    ensures
        r@ == temporary_beside(parent@, name@, stamp@),
{
    join(parent, cat4(".", name, ".tmp.", stamp).as_str())
}

/// The steps that write a text file as a whole.
pub open spec fn write_text(path: Text, text: Text, stamp: Text) -> Seq<StepView> {
    match paths::parent(path) {
        None => seq![impossible("path has no parent: "@ + path)],
        Some(parent) => {
            let name = match paths::last_name(path) {
                Some(name) => name,
                None => "forkpkg"@,
            };
            seq![
                make_dirs(parent, parent),
                write_file(path, temporary_beside(parent, name, stamp), text),
            ]
        },
    }
}

pub(crate) fn write_text_steps(path: &String, text: String, stamp: &str) -> (r: Vec<Step>)
    ensures
        r.deep_view() == write_text(path@, text@, stamp@),
{
    let mut r: Vec<Step> = Vec::new();
    match parent_of(path.as_str()) {
        None => {
            push_step(&mut r, impossible_step(cat2("path has no parent: ", path.as_str())));
        },
        Some(parent) => {
            let name = match file_name(path.as_str()) {
                Some(name) => name,
                None => "forkpkg".to_owned(),
            };
            let temporary = beside(parent.as_str(), name.as_str(), stamp);
            push_step(&mut r, make_dirs_step(parent.clone(), parent.as_str()));
            push_step(&mut r, write_file_step(path.clone(), temporary, text));
        },
    }
    assert(r.deep_view() =~= write_text(path@, text@, stamp@));
    r
}

/// What `f` gives for each element, one list after the other.
pub open spec fn spread<A>(s: Seq<A>, f: spec_fn(A) -> Seq<StepView>) -> Seq<StepView>
    decreases s.len(),
{
    if s.len() == 0 {
        Seq::empty()
    } else {
        f(s[0]) + spread(s.drop_first(), f)
    }
}

pub(crate) proof fn lemma_spread_step<A>(s: Seq<A>, f: spec_fn(A) -> Seq<StepView>, i: int)
    requires
        0 <= i < s.len(),
    ensures
        spread(s.take(i + 1), f) == spread(s.take(i), f) + f(s[i]),
    decreases i,
{
    let more = s.take(i + 1);
    if i > 0 {
        lemma_spread_step(s.drop_first(), f, i - 1);
        assert(more.drop_first() =~= s.drop_first().take(i));
        assert(s.take(i).drop_first() =~= s.drop_first().take(i - 1));
        assert(f(s[0]) + (spread(s.drop_first().take(i - 1), f) + f(s[i])) =~= (f(s[0]) + spread(
            s.drop_first().take(i - 1),
            f,
        )) + f(s[i]));
    } else {
        assert(more.drop_first() =~= Seq::empty());
        assert(s.take(0) =~= Seq::empty());
        assert(f(s[0]) + Seq::<StepView>::empty() =~= Seq::<StepView>::empty() + f(s[0]));
    }
}

// ---- Taking back

/// A step whose failure is kept while the next entry is taken back.
pub open spec fn lenient(step: StepView) -> StepView {
    StepView { severity: Severity::Collect, ..step }
}

/// A step whose failure does not matter.
pub open spec fn optional(step: StepView) -> StepView {
    StepView { severity: Severity::Ignore, ..step }
}

pub open spec fn if_seen(step: StepView) -> StepView {
    StepView { when: When::IfSeen, ..step }
}

pub open spec fn if_unseen(step: StepView) -> StepView {
    StepView { when: When::IfUnseen, ..step }
}

pub(crate) fn with_severity(step: Step, severity: Severity) -> (r: Step)
    ensures
        r.deep_view() == (StepView { severity, ..step.deep_view() }),
{
    Step { severity, ..step }
}

pub(crate) fn with_when(step: Step, when: When) -> (r: Step)
    ensures
        r.deep_view() == (StepView { when, ..step.deep_view() }),
{
    Step { when, ..step }
}

pub(crate) fn with_note(step: Step, note: Note) -> (r: Step)
    ensures
        r.deep_view() == (StepView { note: note.deep_view(), ..step.deep_view() }),
{
    Step { note, ..step }
}

/// The steps that take one entry back.
pub open spec fn undo_steps(undo: UndoView, stamp: Text) -> Seq<StepView> {
    match undo {
        UndoView::RemoveCreated { link } => seq![
            inspect(link),
            if_seen(lenient(remove_file(link, "failed to remove "@))),
        ],
        UndoView::RestorePrevious { link, backup } => seq![
            inspect(link),
            if_seen(remove_file(link, "failed to remove "@)),
            inspect(backup),
            if_seen(
                lenient(
                    rename(backup, link, "failed to restore "@ + backup + " to "@ + link),
                ),
            ),
        ],
        UndoView::RemoveCreatedServiceOverride { service, override_path } => seq![
            inspect(override_path),
            if_seen(remove_file(override_path, "failed to remove "@)),
            reload(),
            optional(restart(service)),
        ],
        UndoView::RecreateActiveLink { link, target } => seq![
            inspect(link),
            if_unseen(make_link(target, link)),
        ],
        UndoView::MoveRestoredBack { link, target, backup } => seq![
            inspect(link),
            if_seen(
                rename(link, backup, "failed to move restored "@ + link + " back to "@ + backup),
            ),
            inspect(link),
            if_unseen(make_link(target, link)),
        ],
        UndoView::RestoreServiceOverride { service, override_path, text } => {
            match paths::parent(override_path) {
                None => seq![
                    impossible("systemd override path has no parent: "@ + override_path),
                ],
                Some(parent) => seq![
                    make_dirs(parent, parent),
                    firm(
                        ActionView::Overwrite { path: override_path, text },
                        "failed to restore "@ + override_path,
                    ),
                    reload(),
                    optional(restart(service)),
                ],
            }
        },
        UndoView::ReinstallProfile { profile, store_path, priority } => seq![
            lenient(add_profile(profile, store_path, priority)),
        ],
        UndoView::RestoreModule { module, text } => write_text(module, text, stamp).map_values(
            |step: StepView| lenient(step),
        ),
    }
}

fn all_lenient(steps: Vec<Step>) -> (r: Vec<Step>)
    ensures
        r.deep_view() == steps.deep_view().map_values(|step: StepView| lenient(step)),
{
    let ghost all = steps.deep_view();
    let ghost wanted = all.map_values(|step: StepView| lenient(step));
    let mut rest = steps;
    let mut r: Vec<Step> = Vec::new();
    let ghost mut i: int = 0;
    assert(all.skip(0) =~= all);
    while rest.len() > 0
        invariant
            0 <= i <= all.len(),
            rest.deep_view() == all.skip(i),
            rest@.len() == all.len() - i,
            wanted == all.map_values(|step: StepView| lenient(step)),
            r.deep_view() == wanted.take(i),
        decreases rest@.len(),
    {
        let ghost before = rest.deep_view();
        assert(before[0] == rest@[0].deep_view() && before[0] == all[i]);
        let step = rest.remove(0);
        proof {
            assert(rest.deep_view() =~= before.drop_first());
            assert(before.drop_first() =~= all.skip(i + 1));
            assert(step.deep_view() == all[i]);
            assert(wanted.take(i + 1) =~= wanted.take(i).push(wanted[i]));
        }
        push_step(&mut r, with_severity(step, Severity::Collect));
        proof {
            i = i + 1;
        }
    }
    assert(wanted.take(i) =~= wanted);
    r
}

fn steps_back(undo: &Undo, stamp: &str) -> (r: Vec<Step>)
    ensures
        r.deep_view() == undo_steps(undo.deep_view(), stamp@),
{
    let mut r: Vec<Step> = Vec::new();
    match undo {
        Undo::RemoveCreated { link } => {
            push_step(&mut r, inspect_step(link));
            let remove = with_severity(
                remove_file_step(link, "failed to remove "),
                Severity::Collect,
            );
            push_step(&mut r, with_when(remove, When::IfSeen));
        },
        Undo::RestorePrevious { link, backup } => {
            push_step(&mut r, inspect_step(link));
            push_step(
                &mut r,
                with_when(remove_file_step(link, "failed to remove "), When::IfSeen),
            );
            push_step(&mut r, inspect_step(backup));
            let context = cat4("failed to restore ", backup.as_str(), " to ", link.as_str());
            let restore = with_severity(rename_step(backup, link, context), Severity::Collect);
            push_step(&mut r, with_when(restore, When::IfSeen));
        },
        Undo::RemoveCreatedServiceOverride { service, override_path } => {
            push_step(&mut r, inspect_step(override_path));
            push_step(
                &mut r,
                with_when(remove_file_step(override_path, "failed to remove "), When::IfSeen),
            );
            push_step(&mut r, reload_step());
            push_step(&mut r, with_severity(restart_step(service), Severity::Ignore));
        },
        Undo::RecreateActiveLink { link, target } => {
            push_step(&mut r, inspect_step(link));
            push_step(&mut r, with_when(make_link_step(target, link), When::IfUnseen));
        },
        Undo::MoveRestoredBack { link, target, backup } => {
            push_step(&mut r, inspect_step(link));
            let context = cat4(
                "failed to move restored ",
                link.as_str(),
                " back to ",
                backup.as_str(),
            );
            push_step(&mut r, with_when(rename_step(link, backup, context), When::IfSeen));
            push_step(&mut r, inspect_step(link));
            push_step(&mut r, with_when(make_link_step(target, link), When::IfUnseen));
        },
        Undo::RestoreServiceOverride { service, override_path, text } => {
            match parent_of(override_path.as_str()) {
                None => {
                    push_step(
                        &mut r,
                        impossible_step(
                            cat2("systemd override path has no parent: ", override_path.as_str()),
                        ),
                    );
                },
                Some(parent) => {
                    push_step(&mut r, make_dirs_step(parent.clone(), parent.as_str()));
                    push_step(
                        &mut r,
                        firm_step(
                            Action::Overwrite { path: override_path.clone(), text: text.clone() },
                            cat2("failed to restore ", override_path.as_str()),
                        ),
                    );
                    push_step(&mut r, reload_step());
                    push_step(&mut r, with_severity(restart_step(service), Severity::Ignore));
                },
            }
        },
        Undo::ReinstallProfile { profile, store_path, priority } => {
            push_step(
                &mut r,
                with_severity(add_profile_step(profile, store_path, *priority), Severity::Collect),
            );
        },
        Undo::RestoreModule { module, text } => {
            return all_lenient(write_text_steps(module, text.clone(), stamp));
        },
    }
    assert(r.deep_view() =~= undo_steps(undo.deep_view(), stamp@));
    r
}

// ---- Running

#[derive(Debug, Clone, Copy, PartialEq, Eq, Structural)]
pub enum Direction {
    Activation,
    Deactivation,
}

/// How far a transaction has come.
#[derive(Debug, Clone)]
pub enum Phase {
    Forward,
    /// A step failed with `error`; what was done is being taken back, which met with
    /// the `errors`.
    Back { error: String, errors: Vec<String> },
    Done,
    Failed { error: String },
}

pub enum PhaseView {
    Forward,
    Back { error: Text, errors: Seq<Text> },
    Done,
    Failed { error: Text },
}

impl DeepView for Phase {
    type V = PhaseView;

    open spec fn deep_view(&self) -> PhaseView {
        match self {
            Phase::Forward => PhaseView::Forward,
            Phase::Back { error, errors } => PhaseView::Back {
                error: error@,
                errors: errors.deep_view(),
            },
            Phase::Done => PhaseView::Done,
            Phase::Failed { error } => PhaseView::Failed { error: error@ },
        }
    }
}

/// A change of the machine under way. The steps to come are kept last first.
#[derive(Debug, Clone)]
pub struct Transaction {
    pub direction: Direction,
    pub phase: Phase,
    pub steps: Vec<Step>,
    /// What the last look saw.
    pub seen: bool,
    /// The text that was last read.
    pub held: String,
    /// The profile element that was last found.
    pub found: Option<String>,
    pub undo: Vec<Undo>,
    pub stamp: String,
}

pub struct RunView {
    pub direction: Direction,
    pub phase: PhaseView,
    pub steps: Seq<StepView>,
    pub seen: bool,
    pub held: Text,
    pub found: Option<Text>,
    pub undo: Seq<UndoView>,
    pub stamp: Text,
}

impl DeepView for Transaction {
    type V = RunView;

    open spec fn deep_view(&self) -> RunView {
        RunView {
            direction: self.direction,
            phase: self.phase.deep_view(),
            steps: self.steps.deep_view().reverse(),
            seen: self.seen,
            held: self.held@,
            found: self.found.deep_view(),
            undo: self.undo.deep_view(),
            stamp: self.stamp@,
        }
    }
}

/// What is told where taking back failed as well.
pub open spec fn rollback_label(direction: Direction) -> Text {
    match direction {
        Direction::Activation => "; rollback after failed activation also failed: "@,
        Direction::Deactivation => "; rollback after failed deactivation also failed: "@,
    }
}

fn label(direction: Direction) -> (r: &'static str)
    ensures
        r@ == rollback_label(direction),
{
    match direction {
        Direction::Activation => "; rollback after failed activation also failed: ",
        Direction::Deactivation => "; rollback after failed deactivation also failed: ",
    }
}

impl RunView {
    pub open spec fn rank(self) -> nat {
        match self.phase {
            PhaseView::Forward => 2,
            PhaseView::Back { .. } => 1,
            _ => 0,
        }
    }

    /// Without the step at hand.
    pub open spec fn past(self) -> RunView {
        RunView { steps: self.steps.drop_first(), ..self }
    }

    /// After the step at hand failed with a message.
    pub open spec fn after_failure(self, message: Text) -> RunView {
        if self.steps[0].severity == Severity::Ignore {
            self.past()
        } else {
            match self.phase {
                PhaseView::Forward => RunView {
                    phase: PhaseView::Back { error: message, errors: Seq::empty() },
                    steps: Seq::empty(),
                    ..self
                },
                PhaseView::Back { error, errors } => if self.steps[0].severity
                    == Severity::Collect {
                    RunView {
                        phase: PhaseView::Back { error, errors: errors.push(message) },
                        steps: Seq::empty(),
                        ..self
                    }
                } else {
                    RunView {
                        phase: PhaseView::Failed {
                            error: error + rollback_label(self.direction) + message,
                        },
                        steps: Seq::empty(),
                        ..self
                    }
                },
                _ => self.past(),
            }
        }
    }

    /// Where the steps at hand have all been taken: the end, or the next entry to
    /// take back.
    pub open spec fn turned(self) -> RunView {
        match self.phase {
            PhaseView::Forward => RunView { phase: PhaseView::Done, ..self },
            PhaseView::Back { error, errors } => if self.undo.len() > 0 {
                RunView {
                    steps: undo_steps(self.undo.last(), self.stamp),
                    undo: self.undo.drop_last(),
                    ..self
                }
            } else if errors.len() == 0 {
                RunView { phase: PhaseView::Failed { error }, ..self }
            } else {
                RunView {
                    phase: PhaseView::Failed {
                        error: error + rollback_label(self.direction) + text::joined(
                            errors,
                            "; "@,
                        ),
                    },
                    ..self
                }
            },
            _ => self,
        }
    }

    /// Goes on until there is an action to perform, or nothing left to do.
    #[verifier::opaque]
    pub open spec fn settled(self) -> RunView
        decreases self.rank(), self.undo.len(), self.steps.len(),
    {
        if self.rank() == 0 {
            self
        } else if self.steps.len() == 0 {
            self.turned().settled()
        } else if !self.steps[0].when.holds(self.seen) {
            self.past().settled()
        } else {
            match self.steps[0].action {
                ActionView::Refuse { message } => self.after_failure(message).settled(),
                _ => self,
            }
        }
    }

    /// The action to perform next, if any is left.
    pub open spec fn request(self) -> Option<ActionView> {
        if self.rank() == 0 || self.steps.len() == 0 {
            None
        } else {
            Some(self.steps[0].action)
        }
    }
}

/// An entry that restores a text, with the text that was read.
pub open spec fn filled(undo: UndoView, held: Text) -> UndoView {
    match undo {
        UndoView::RestoreServiceOverride {
            service,
            override_path,
            ..
        } => UndoView::RestoreServiceOverride { service, override_path, text: held },
        UndoView::RestoreModule { module, .. } => UndoView::RestoreModule { module, text: held },
        _ => undo,
    }
}

fn fill(undo: Undo, held: &String) -> (r: Undo)
    ensures
        r.deep_view() == filled(undo.deep_view(), held@),
{
    match undo {
        Undo::RestoreServiceOverride {
            service,
            override_path,
            ..
        } => Undo::RestoreServiceOverride { service, override_path, text: held.clone() },
        Undo::RestoreModule { module, .. } => Undo::RestoreModule { module, text: held.clone() },
        other => other,
    }
}

/// What can be taken back once a step has succeeded.
pub open spec fn noted(undo: Seq<UndoView>, note: NoteView, held: Text) -> Seq<UndoView> {
    match note {
        NoteView::Nothing => undo,
        NoteView::Push { undo: entry } => undo.push(filled(entry, held)),
        NoteView::Replace { undo: entry } => if undo.len() == 0 {
            undo.push(filled(entry, held))
        } else {
            undo.drop_last().push(filled(entry, held))
        },
    }
}

impl RunView {
    /// After the step at hand succeeded. Notes are taken on the way forward alone.
    pub open spec fn after_success(self, reply: ReplyView) -> RunView {
        let step = self.steps[0];
        let undo = if self.phase is Forward {
            noted(self.undo, step.note, self.held)
        } else {
            self.undo
        };
        let known = RunView { undo, ..self.past() };
        match step.action {
            ActionView::Inspect { .. } => RunView { seen: reply.present, ..known },
            ActionView::ReadText { .. } => RunView { held: reply.text, ..known },
            ActionView::ListProfile { store_path, .. } => {
                let found = profiles::element_for(reply.listing->Ok_0, store_path);
                RunView { seen: found is Some, found, ..known }
            },
            _ => known,
        }
    }

    /// What a reply says of the step at hand: the message of its failure, if it failed.
    pub open spec fn failure_in(self, reply: ReplyView) -> Option<Text> {
        let step = self.steps[0];
        match reply.failure {
            Some(failure) => Some(failure_message(step, failure)),
            None => match (step.action, reply.listing) {
                (ActionView::ListProfile { .. }, Err(problem)) => Some(problem),
                _ => None,
            },
        }
    }

    /// How a transaction goes on after a reply.
    pub open spec fn advanced(self, reply: ReplyView) -> RunView {
        if self.request() is None {
            self
        } else {
            match self.failure_in(reply) {
                Some(message) => self.after_failure(message).settled(),
                None => self.after_success(reply).settled(),
            }
        }
    }
}

/// A transaction before its first step.
pub open spec fn begun(direction: Direction, steps: Seq<StepView>, stamp: Text) -> RunView {
    RunView {
        direction,
        phase: PhaseView::Forward,
        steps,
        seen: false,
        held: Seq::empty(),
        found: None,
        undo: Seq::empty(),
        stamp,
    }
}

fn reversed(steps: Vec<Step>) -> (r: Vec<Step>)
    ensures
        r.deep_view() == steps.deep_view().reverse(),
{
    let ghost all = steps.deep_view();
    let mut rest = steps;
    let mut r: Vec<Step> = Vec::new();
    while rest.len() > 0
        invariant
            rest@.len() <= all.len(),
            rest.deep_view() == all.take(rest@.len() as int),
            r.deep_view() == all.reverse().take(all.len() - rest@.len()),
        decreases rest@.len(),
    {
        let ghost n = rest@.len() as int;
        let ghost last = rest.deep_view()[n - 1];
        if let Some(step) = rest.pop() {
            assert(step.deep_view() == last);
            push_step(&mut r, step);
            assert(rest.deep_view() =~= all.take(n - 1));
            assert(all.reverse().take(all.len() - (n - 1)) =~= all.reverse().take(
                all.len() - n,
            ).push(all[n - 1]));
        }
    }
    assert(all.reverse().take(all.len() as int) =~= all.reverse());
    r
}

impl Transaction {
    /// A transaction that is ready for its first action.
    pub(crate) fn start(direction: Direction, steps: Vec<Step>, stamp: &str) -> (r: Self)
        ensures
            r.deep_view() == begun(direction, steps.deep_view(), stamp@).settled(),
    {
        let ghost given = steps.deep_view();
        let run = Transaction {
            direction,
            phase: Phase::Forward,
            steps: reversed(steps),
            seen: false,
            held: String::new(),
            found: None,
            undo: Vec::new(),
            stamp: stamp.to_owned(),
        };
        proof {
            assert(given.reverse().reverse() =~= given);
            assert(run.undo.deep_view() =~= Seq::empty());
            assert(run.held@ =~= Seq::empty());
            assert(run.deep_view() == begun(direction, given, stamp@));
        }
        run.settle()
    }

    fn after_step_failure(self, severity: Severity, message: String) -> (r: Self)
        requires
            self.deep_view().rank() > 0,
        ensures
            forall|s: RunView|
                s.steps.len() > 0 && s.steps[0].severity == severity && s.past()
                    == self.deep_view() ==> r.deep_view() == #[trigger] s.after_failure(message@),
    {
        let mut run = self;
        if severity == Severity::Ignore {
            return run;
        }
        let none: Vec<Step> = Vec::new();
        assert(none.deep_view().reverse() =~= Seq::empty());
        match run.phase {
            Phase::Forward => {
                let errors: Vec<String> = Vec::new();
                assert(errors.deep_view() =~= Seq::empty());
                run.phase = Phase::Back { error: message, errors };
                run.steps = none;
            },
            Phase::Back { error, errors } => {
                if severity == Severity::Collect {
                    let mut errors = errors;
                    text::push_line(&mut errors, message);
                    run.phase = Phase::Back { error, errors };
                } else {
                    run.phase = Phase::Failed {
                        error: cat3(error.as_str(), label(run.direction), message.as_str()),
                    };
                }
                run.steps = none;
            },
            Phase::Done => {
                run.phase = Phase::Done;
            },
            Phase::Failed { error } => {
                run.phase = Phase::Failed { error };
            },
        }
        run
    }

    fn turn(self) -> (r: Self)
        ensures
            r.deep_view() == self.deep_view().turned(),
    {
        let mut run = self;
        let ghost before = run.deep_view();
        match run.phase {
            Phase::Forward => {
                run.phase = Phase::Done;
            },
            Phase::Back { error, errors } => {
                if run.undo.len() > 0 {
                    let ghost entries = run.undo.deep_view();
                    if let Some(entry) = run.undo.pop() {
                        assert(run.undo.deep_view() =~= entries.drop_last());
                        assert(entry.deep_view() == entries.last());
                        run.steps = reversed(steps_back(&entry, run.stamp.as_str()));
                        assert(run.steps.deep_view().reverse() =~= undo_steps(
                            entries.last(),
                            before.stamp,
                        ));
                    }
                    run.phase = Phase::Back { error, errors };
                } else if errors.len() == 0 {
                    run.phase = Phase::Failed { error };
                } else {
                    let told = text::join(&errors, "; ");
                    run.phase = Phase::Failed {
                        error: cat3(error.as_str(), label(run.direction), told.as_str()),
                    };
                }
            },
            Phase::Done => {
                run.phase = Phase::Done;
            },
            Phase::Failed { error } => {
                run.phase = Phase::Failed { error };
            },
        }
        run
    }

    fn is_over(&self) -> (r: bool)
        ensures
            r == (self.deep_view().rank() == 0),
    {
        match &self.phase {
            Phase::Done => true,
            Phase::Failed { .. } => true,
            _ => false,
        }
    }

    fn settle(self) -> (r: Self)
        ensures
            r.deep_view() == self.deep_view().settled(),
    {
        let ghost goal = self.deep_view().settled();
        let mut run = self;
        loop
            invariant
                run.deep_view().settled() == goal,
                goal == self.deep_view().settled(),
            decreases run.deep_view().rank(), run.deep_view().undo.len(), run.deep_view().steps.len(),
        {
            let ghost now = run.deep_view();
            reveal(RunView::settled);
            if run.is_over() {
                return run;
            }
            let count = run.steps.len();
            if count == 0 {
                assert(now.steps.len() == 0);
                run = run.turn();
                continue;
            }
            assert(now.steps[0] == run.steps@[count - 1].deep_view());
            let held = match run.steps[count - 1].when {
                When::Always => true,
                When::IfSeen => run.seen,
                When::IfUnseen => !run.seen,
            };
            if !held {
                let _ = run.steps.pop();
                assert(run.deep_view().steps =~= now.steps.drop_first());
                assert(run.deep_view() == now.past());
                continue;
            }
            let message = match &run.steps[count - 1].action {
                Action::Refuse { message } => Some(message.clone()),
                _ => None,
            };
            match message {
                None => {
                    return run;
                },
                Some(message) => {
                    let severity = run.steps[count - 1].severity;
                    let _ = run.steps.pop();
                    assert(run.deep_view().steps =~= now.steps.drop_first());
                    assert(run.deep_view() == now.past());
                    run = run.after_step_failure(severity, message);
                    assert(run.deep_view() == now.after_failure(message@));
                },
            }
        }
    }

    /// The action to perform next, if any is left.
    pub fn request(&self) -> (r: Option<&Action>)
        ensures
            match r {
                Some(action) => self.deep_view().request() == Some(action.deep_view()),
                None => self.deep_view().request() is None,
            },
    {
        if self.is_over() {
            return None;
        }
        let count = self.steps.len();
        if count == 0 {
            return None;
        }
        assert(self.deep_view().steps[0] == self.steps@[count - 1].deep_view());
        Some(&self.steps[count - 1].action)
    }

    /// Goes on after the action that was asked for.
    pub fn advance(self, reply: Reply) -> (r: Self)
        ensures
            r.deep_view() == self.deep_view().advanced(reply.deep_view()),
    {
        let ghost now = self.deep_view();
        let mut run = self;
        if run.is_over() {
            return run;
        }
        let step = match run.steps.pop() {
            Some(step) => step,
            None => {
                assert(run.deep_view().steps =~= now.steps);
                assert(now.steps.len() == 0);
                return run;
            },
        };
        assert(now.steps.len() > 0);
        assert(now.steps[0] == step.deep_view());
        assert(run.deep_view().steps =~= now.steps.drop_first());
        assert(run.deep_view() == now.past());
        let mut failure: Option<String> = None;
        let mut element: Option<String> = None;
        match &reply.failure {
            Some(cause) => {
                failure = Some(tell_failure(&step, cause));
            },
            None => {
                if let Action::ListProfile { store_path, .. } = &step.action {
                    match find_profile_element(&reply.listing, store_path.as_str()) {
                        Ok(name) => {
                            element = name;
                        },
                        Err(error) => {
                            failure = Some(error.message);
                        },
                    }
                }
            },
        }
        assert(failure.deep_view() == now.failure_in(reply.deep_view()));
        if let Some(message) = failure {
            let failed = run.after_step_failure(step.severity, message);
            assert(failed.deep_view() == now.after_failure(message@));
            return failed.settle();
        }
        let forward = match &run.phase {
            Phase::Forward => true,
            _ => false,
        };
        if forward {
            match step.note {
                Note::Nothing => {},
                Note::Push { undo } => {
                    let entry = fill(undo, &run.held);
                    run.undo.push(entry);
                },
                Note::Replace { undo } => {
                    let entry = fill(undo, &run.held);
                    let _ = run.undo.pop();
                    run.undo.push(entry);
                },
            }
            assert(run.undo.deep_view() =~= noted(now.undo, now.steps[0].note, now.held));
        }
        match &step.action {
            Action::Inspect { .. } => {
                run.seen = reply.present;
            },
            Action::ReadText { .. } => {
                run.held = reply.text.clone();
            },
            Action::ListProfile { .. } => {
                run.seen = element.is_some();
                run.found = element;
            },
            _ => {},
        }
        assert(run.deep_view() == now.after_success(reply.deep_view()));
        run.settle()
    }

    /// Whether a transaction has come to its end, and why it failed if it did.
    pub fn outcome(&self) -> (r: Option<Result<(), text::Error>>)
        ensures
            match self.deep_view().phase {
                PhaseView::Done => r == Some(Ok::<(), text::Error>(())),
                PhaseView::Failed { error } => match r {
                    Some(Err(told)) => told@ == error,
                    _ => false,
                },
                _ => r is None,
            },
    {
        match &self.phase {
            Phase::Done => Some(Ok(())),
            Phase::Failed { error } => Some(Err(text::fail(error.clone()))),
            _ => None,
        }
    }
}

} // verus!
