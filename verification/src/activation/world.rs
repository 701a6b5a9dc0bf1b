//! What transactions do to a machine: failures leave no trace, and undoing an
//! activation of links and services gives back what was there before. A snapshot has to
//! tell of the places that a record speaks of, and of no others.
//!
//! The machine is modelled by its files and by what its profiles hold. Directories are
//! left out: making them, and removing those that are empty, changes no file.
use vstd::prelude::*;

use crate::activation::keys::PathsView;
use crate::activation::preflight;
use crate::activation::profiles::{self, ElementView};
use crate::activation::records::{
    LinkView, ModuleView, PreviousView, ProfileView, RecordView, ServiceView,
};
use crate::activation::scripts;
use crate::activation::transaction::{
    self, ActionView, Direction, FailureView, PhaseView, ReplyView, RunView, Severity,
    StepView, UndoView,
};
use crate::paths;
use crate::snapshot::Snapshot;
use crate::text::{self, Text};

verus! {

// ---- The model

/// What stands at a place.
pub enum Node {
    File { text: Text },
    Link { target: Seq<Text> },
    Other,
}

/// The files, by the components of their paths, and the store paths that profiles
/// provide.
pub struct World {
    pub files: Map<Seq<Text>, Node>,
    pub installed: Set<(Option<Text>, Seq<Text>)>,
}

pub open spec fn place(path: Text) -> Seq<Text> {
    paths::components(path)
}

impl World {
    pub open spec fn has(self, path: Text) -> bool {
        self.files.contains_key(place(path))
    }

    pub open spec fn put(self, path: Text, node: Node) -> World {
        World { files: self.files.insert(place(path), node), ..self }
    }

    pub open spec fn without(self, path: Text) -> World {
        World { files: self.files.remove(place(path)), ..self }
    }

    pub open spec fn moved(self, from: Text, to: Text) -> World {
        self.without(from).put(to, self.files[place(from)])
    }

    pub open spec fn provides(self, profile: Option<Text>, store_path: Text) -> bool {
        self.installed.contains((profile, place(store_path)))
    }
}

pub open spec fn answer(present: bool, contents: Text, listing: Seq<ElementView>) -> ReplyView {
    ReplyView { failure: None, present, text: contents, listing: Ok(listing) }
}

/// A reply that only says that the action succeeded.
pub open spec fn done() -> ReplyView {
    answer(false, Seq::empty(), Seq::empty())
}

/// What listing a profile shows of one store path.
pub open spec fn listing_in(w: World, profile: Option<Text>, store_path: Text) -> Seq<ElementView> {
    if w.provides(profile, store_path) {
        seq![ElementView { name: store_path, active: true, store_paths: seq![store_path] }]
    } else {
        Seq::empty()
    }
}

/// What an action does and answers; `None` where it cannot succeed.
pub open spec fn performed(w: World, action: ActionView) -> Option<(World, ReplyView)> {
    match action {
        ActionView::MakeDirs { .. } => Some((w, done())),
        ActionView::Systemctl { .. } => Some((w, done())),
        ActionView::RemoveDir { .. } => Some((w, done())),
        ActionView::Inspect { path } => Some((w, answer(w.has(path), Seq::empty(), Seq::empty()))),
        ActionView::MakeLink { target, link } => if w.has(link) {
            None
        } else {
            Some((w.put(link, Node::Link { target: place(target) }), done()))
        },
        ActionView::Rename { from, to } => if w.has(from) {
            Some((w.moved(from, to), done()))
        } else {
            None
        },
        ActionView::RemoveFile { path } => if w.has(path) {
            Some((w.without(path), done()))
        } else {
            None
        },
        ActionView::WriteFile { path, text, .. } => Some((w.put(path, Node::File { text }), done())),
        ActionView::Overwrite { path, text } => Some((w.put(path, Node::File { text }), done())),
        ActionView::ReadText { path } => if w.has(path) && w.files[place(path)] is File {
            Some((w, answer(false, w.files[place(path)]->text, Seq::empty())))
        } else {
            None
        },
        ActionView::ListProfile { profile, store_path } => Some(
            (w, answer(false, Seq::empty(), listing_in(w, profile, store_path))),
        ),
        ActionView::AddProfile { profile, store_path, .. } => Some(
            (
                World { installed: w.installed.insert((profile, place(store_path))), ..w },
                done(),
            ),
        ),
        ActionView::RemoveProfile { profile, store_path } => Some(
            (
                World { installed: w.installed.remove((profile, place(store_path))), ..w },
                done(),
            ),
        ),
        ActionView::Refuse { .. } => None,
    }
}

/// How much a transaction can still do, at most.
pub open spec fn work(s: RunView) -> nat {
    match s.phase {
        PhaseView::Forward => 1 + 6 * s.steps.len() + 5 * s.undo.len(),
        PhaseView::Back { .. } => s.steps.len() + 5 * s.undo.len(),
        _ => 0,
    }
}

proof fn lemma_settled_work(s: RunView)
    ensures
        work(s.settled()) <= work(s),
        s.settled().rank() > 0 ==> s.settled().steps.len() > 0,
    decreases s.rank(), s.undo.len(), s.steps.len(),
{
    reveal(RunView::settled);
    if s.rank() == 0 {
    } else if s.steps.len() == 0 {
        lemma_settled_work(s.turned());
    } else if !s.steps[0].when.holds(s.seen) {
        lemma_settled_work(s.past());
    } else {
        if let ActionView::Refuse { message } = s.steps[0].action {
            lemma_settled_work(s.after_failure(message));
        }
    }
}

proof fn lemma_advanced_work(s: RunView, reply: ReplyView)
    requires
        s.request() is Some,
    ensures
        work(s.advanced(reply)) < work(s),
{
    match s.failure_in(reply) {
        Some(message) => {
            lemma_settled_work(s.after_failure(message));
        },
        None => {
            lemma_settled_work(s.after_success(reply));
        },
    }
}

pub open spec fn failing(failure: FailureView) -> ReplyView {
    ReplyView { failure: Some(failure), ..done() }
}

/// Runs a transaction to its end. The action with the number `fault`, counted from
/// zero, fails with `failure` on the way forward, and so does every action that cannot
/// succeed; a negative `fault` means no other failure. Taking back meets no fault.
#[verifier::opaque]
pub open spec fn run(s: RunView, w: World, fault: int, failure: FailureView) -> (RunView, World)
    decreases work(s),
    via run_decreases
{
    match s.request() {
        None => (s, w),
        Some(action) => {
            let forward = s.phase is Forward;
            let next = if forward {
                fault - 1
            } else {
                fault
            };
            match performed(w, action) {
                Some((after, reply)) => if forward && fault == 0 {
                    run(s.advanced(failing(failure)), w, next, failure)
                } else {
                    run(s.advanced(reply), after, next, failure)
                },
                None => run(s.advanced(failing(failure)), w, next, failure),
            }
        },
    }
}

#[via_fn]
proof fn run_decreases(s: RunView, w: World, fault: int, failure: FailureView) {
    if let Some(action) = s.request() {
        lemma_advanced_work(s, failing(failure));
        if let Some((after, reply)) = performed(w, action) {
            lemma_advanced_work(s, reply);
        }
    }
}

// ---- Single steps

/// Whether the step at hand is taken, and asks for an action.
pub open spec fn at_action(s: RunView) -> bool {
    &&& s.rank() > 0
    &&& s.steps.len() > 0
    &&& s.steps[0].when.holds(s.seen)
    &&& !(s.steps[0].action is Refuse)
}

pub(crate) proof fn lemma_take(s: RunView, w: World, fault: int, failure: FailureView)
    requires
        at_action(s),
        performed(w, s.steps[0].action) is Some,
        s.phase is Forward ==> fault != 0,
    ensures
        ({
            let (after, reply) = performed(w, s.steps[0].action)->Some_0;
            let next = if s.phase is Forward {
                fault - 1
            } else {
                fault
            };
            run(s.settled(), w, fault, failure) == run(
                s.after_success(reply).settled(),
                after,
                next,
                failure,
            )
        }),
{
    reveal(RunView::settled);
    reveal(run);
    assert(s.settled() == s);
    let (after, reply) = performed(w, s.steps[0].action)->Some_0;
    assert(s.failure_in(reply) is None);
    assert(s.advanced(reply) == s.after_success(reply).settled());
}

proof fn lemma_skip(s: RunView)
    requires
        s.rank() > 0,
        s.steps.len() > 0,
        !s.steps[0].when.holds(s.seen),
    ensures
        s.settled() == s.past().settled(),
{
    reveal(RunView::settled);
}

pub(crate) proof fn lemma_turn(s: RunView)
    requires
        s.rank() > 0,
        s.steps.len() == 0,
    ensures
        s.settled() == s.turned().settled(),
{
    reveal(RunView::settled);
}

/// A transaction that is over stays as it is.
pub(crate) proof fn lemma_over(s: RunView, w: World, fault: int, failure: FailureView)
    requires
        s.rank() == 0,
    ensures
        s.settled() == s,
        run(s.settled(), w, fault, failure) == (s, w),
{
    reveal(RunView::settled);
    reveal(run);
}

proof fn lemma_fail(s: RunView, w: World, fault: int, failure: FailureView) -> (message: Text)
    requires
        at_action(s),
        s.phase is Forward,
        fault == 0 || performed(w, s.steps[0].action) is None,
    ensures
        run(s.settled(), w, fault, failure) == run(
            s.after_failure(message).settled(),
            w,
            fault - 1,
            failure,
        ),
{
    reveal(RunView::settled);
    reveal(run);
    assert(s.settled() == s);
    let message = transaction::failure_message(s.steps[0], failure);
    assert(s.failure_in(failing(failure)) == Some(message));
    assert(s.advanced(failing(failure)) == s.after_failure(message).settled());
    message
}

// ---- Taking back

/// What the last look saw after a step.
pub open spec fn seen_after(step: StepView, seen: bool, w: World) -> bool {
    match step.action {
        ActionView::Inspect { path } => if step.when.holds(seen) {
            w.has(path)
        } else {
            seen
        },
        _ => seen,
    }
}

pub open spec fn world_after(step: StepView, seen: bool, w: World) -> World {
    if step.when.holds(seen) {
        performed(w, step.action)->Some_0.0
    } else {
        w
    }
}

/// Whether steps succeed one after the other, and read nothing but what looks see.
pub open spec fn playable(steps: Seq<StepView>, seen: bool, w: World) -> bool
    decreases steps.len(),
{
    steps.len() == 0 || {
        let step = steps[0];
        &&& !(step.action is Refuse) && !(step.action is ReadText) && !(step.action is ListProfile)
        &&& step.when.holds(seen) ==> performed(w, step.action) is Some
        &&& playable(steps.drop_first(), seen_after(step, seen, w), world_after(step, seen, w))
    }
}

/// What such steps make of a machine.
pub open spec fn played(steps: Seq<StepView>, seen: bool, w: World) -> World
    decreases steps.len(),
{
    if steps.len() == 0 {
        w
    } else {
        let step = steps[0];
        played(steps.drop_first(), seen_after(step, seen, w), world_after(step, seen, w))
    }
}

proof fn lemma_played(s: RunView, w: World, fault: int, failure: FailureView) -> (seen: bool)
    requires
        s.phase is Back,
        playable(s.steps, s.seen, w),
    ensures
        run(s.settled(), w, fault, failure) == run(
            RunView { steps: Seq::empty(), seen, ..s }.settled(),
            played(s.steps, s.seen, w),
            fault,
            failure,
        ),
    decreases s.steps.len(),
{
    if s.steps.len() == 0 {
        assert(s.steps =~= Seq::empty());
        assert(RunView { steps: Seq::empty(), seen: s.seen, ..s } == s);
        s.seen
    } else {
        let step = s.steps[0];
        let later = RunView {
            steps: s.steps.drop_first(),
            seen: seen_after(step, s.seen, w),
            ..s
        };
        let after = world_after(step, s.seen, w);
        if step.when.holds(s.seen) {
            lemma_take(s, w, fault, failure);
            let (_, reply) = performed(w, step.action)->Some_0;
            assert(s.after_success(reply) == later);
        } else {
            assert(s.past() == later);
            lemma_skip(s);
        }
        lemma_played(later, after, fault, failure)
    }
}

/// What taking one entry back makes of a machine.
pub open spec fn taken_back(undo: UndoView, w: World) -> World {
    match undo {
        UndoView::RemoveCreated { link } => w.without(link),
        UndoView::RestorePrevious { link, backup } => {
            let cleared = w.without(link);
            if cleared.has(backup) {
                cleared.moved(backup, link)
            } else {
                cleared
            }
        },
        UndoView::RemoveCreatedServiceOverride { override_path, .. } => w.without(override_path),
        UndoView::RecreateActiveLink { link, target } => if w.has(link) {
            w
        } else {
            w.put(link, Node::Link { target: place(target) })
        },
        UndoView::MoveRestoredBack { link, target, backup } => {
            let cleared = if w.has(link) {
                w.moved(link, backup)
            } else {
                w
            };
            if cleared.has(link) {
                cleared
            } else {
                cleared.put(link, Node::Link { target: place(target) })
            }
        },
        UndoView::RestoreServiceOverride { override_path, text, .. } => w.put(
            override_path,
            Node::File { text },
        ),
        UndoView::ReinstallProfile { profile, store_path, .. } => World {
            installed: w.installed.insert((profile, place(store_path))),
            ..w
        },
        UndoView::RestoreModule { module, text } => w.put(module, Node::File { text }),
    }
}

/// Whether an entry's files have a directory to be written to.
pub open spec fn can_take_back(undo: UndoView) -> bool {
    match undo {
        UndoView::RestoreServiceOverride { override_path, .. } => paths::parent(
            override_path,
        ) is Some,
        UndoView::RestoreModule { module, .. } => paths::parent(module) is Some,
        _ => true,
    }
}

proof fn lemma_played_first(steps: Seq<StepView>, seen: bool, w: World, rest: Seq<StepView>)
    requires
        steps.len() > 0,
        rest == steps.drop_first(),
        !(steps[0].action is Refuse),
        !(steps[0].action is ReadText),
        !(steps[0].action is ListProfile),
        steps[0].when.holds(seen) ==> performed(w, steps[0].action) is Some,
    ensures
        ({
            let next = seen_after(steps[0], seen, w);
            let after = world_after(steps[0], seen, w);
            &&& playable(steps, seen, w) == playable(rest, next, after)
            &&& played(steps, seen, w) == played(rest, next, after)
        }),
{
}

/// Whether the steps of an entry succeed, and take it back.
pub open spec fn plays_back(undo: UndoView, stamp: Text, seen: bool, w: World) -> bool {
    &&& playable(transaction::undo_steps(undo, stamp), seen, w)
    &&& played(transaction::undo_steps(undo, stamp), seen, w) == taken_back(undo, w)
}

proof fn lemma_remove_created(link: Text, stamp: Text, seen: bool, w: World)
    ensures
        plays_back(UndoView::RemoveCreated { link }, stamp, seen, w),
{
    let undo = UndoView::RemoveCreated { link };
    let steps = transaction::undo_steps(undo, stamp);
    let none = Seq::<StepView>::empty();
    let second = seq![steps[1]];
    assert(steps.drop_first() =~= second);
    assert(second.drop_first() =~= none);
    lemma_played_first(steps, seen, w, second);
    lemma_played_first(second, w.has(link), w, none);
    if !w.has(link) {
        assert(w.without(link).files =~= w.files);
    }
}

proof fn lemma_restore_previous(link: Text, backup: Text, stamp: Text, seen: bool, w: World)
    ensures
        plays_back(UndoView::RestorePrevious { link, backup }, stamp, seen, w),
{
    let undo = UndoView::RestorePrevious { link, backup };
    let steps = transaction::undo_steps(undo, stamp);
    let none = Seq::<StepView>::empty();
    let s1 = seq![steps[1], steps[2], steps[3]];
    let s2 = seq![steps[2], steps[3]];
    let s3 = seq![steps[3]];
    assert(steps.drop_first() =~= s1);
    assert(s1.drop_first() =~= s2);
    assert(s2.drop_first() =~= s3);
    assert(s3.drop_first() =~= none);
    if !w.has(link) {
        assert(w.without(link).files =~= w.files);
    }
    let cleared = w.without(link);
    lemma_played_first(steps, seen, w, s1);
    lemma_played_first(s1, w.has(link), w, s2);
    lemma_played_first(s2, w.has(link), cleared, s3);
    lemma_played_first(s3, cleared.has(backup), cleared, none);
}

proof fn lemma_remove_created_service_override(service: Text, override_path: Text, stamp: Text, seen: bool, w: World)
    ensures
        plays_back(UndoView::RemoveCreatedServiceOverride { service, override_path }, stamp, seen, w),
{
    let undo = UndoView::RemoveCreatedServiceOverride { service, override_path };
    let steps = transaction::undo_steps(undo, stamp);
    let none = Seq::<StepView>::empty();
    let s1 = seq![steps[1], steps[2], steps[3]];
    let s2 = seq![steps[2], steps[3]];
    let s3 = seq![steps[3]];
    assert(steps.drop_first() =~= s1);
    assert(s1.drop_first() =~= s2);
    assert(s2.drop_first() =~= s3);
    assert(s3.drop_first() =~= none);
    if !w.has(override_path) {
        assert(w.without(override_path).files =~= w.files);
    }
    let cleared = w.without(override_path);
    let saw = w.has(override_path);
    lemma_played_first(steps, seen, w, s1);
    lemma_played_first(s1, saw, w, s2);
    lemma_played_first(s2, saw, cleared, s3);
    lemma_played_first(s3, saw, cleared, none);
}

proof fn lemma_recreate_active_link(link: Text, target: Text, stamp: Text, seen: bool, w: World)
    ensures
        plays_back(UndoView::RecreateActiveLink { link, target }, stamp, seen, w),
{
    let undo = UndoView::RecreateActiveLink { link, target };
    let steps = transaction::undo_steps(undo, stamp);
    let none = Seq::<StepView>::empty();
    let second = seq![steps[1]];
    assert(steps.drop_first() =~= second);
    assert(second.drop_first() =~= none);
    lemma_played_first(steps, seen, w, second);
    lemma_played_first(second, w.has(link), w, none);
}

proof fn lemma_move_restored_back(link: Text, target: Text, backup: Text, stamp: Text, seen: bool, w: World)
    ensures
        plays_back(UndoView::MoveRestoredBack { link, target, backup }, stamp, seen, w),
{
    let undo = UndoView::MoveRestoredBack { link, target, backup };
    let steps = transaction::undo_steps(undo, stamp);
    let none = Seq::<StepView>::empty();
    let s1 = seq![steps[1], steps[2], steps[3]];
    let s2 = seq![steps[2], steps[3]];
    let s3 = seq![steps[3]];
    assert(steps.drop_first() =~= s1);
    assert(s1.drop_first() =~= s2);
    assert(s2.drop_first() =~= s3);
    assert(s3.drop_first() =~= none);
    let cleared = if w.has(link) {
        w.moved(link, backup)
    } else {
        w
    };
    lemma_played_first(steps, seen, w, s1);
    lemma_played_first(s1, w.has(link), w, s2);
    lemma_played_first(s2, w.has(link), cleared, s3);
    lemma_played_first(s3, cleared.has(link), cleared, none);
}

proof fn lemma_restore_service_override(service: Text, override_path: Text, text: Text, stamp: Text, seen: bool, w: World)
    requires
        paths::parent(override_path) is Some,
    ensures
        plays_back(UndoView::RestoreServiceOverride { service, override_path, text }, stamp, seen, w),
{
    let undo = UndoView::RestoreServiceOverride { service, override_path, text };
    let steps = transaction::undo_steps(undo, stamp);
    let none = Seq::<StepView>::empty();
    let s1 = seq![steps[1], steps[2], steps[3]];
    let s2 = seq![steps[2], steps[3]];
    let s3 = seq![steps[3]];
    assert(steps.drop_first() =~= s1);
    assert(s1.drop_first() =~= s2);
    assert(s2.drop_first() =~= s3);
    assert(s3.drop_first() =~= none);
    let restored = w.put(override_path, Node::File { text });
    lemma_played_first(steps, seen, w, s1);
    lemma_played_first(s1, seen, w, s2);
    lemma_played_first(s2, seen, restored, s3);
    lemma_played_first(s3, seen, restored, none);
}

proof fn lemma_reinstall_profile(profile: Option<Text>, store_path: Text, priority: i64, stamp: Text, seen: bool, w: World)
    ensures
        plays_back(UndoView::ReinstallProfile { profile, store_path, priority }, stamp, seen, w),
{
    let undo = UndoView::ReinstallProfile { profile, store_path, priority };
    let steps = transaction::undo_steps(undo, stamp);
    let none = Seq::<StepView>::empty();
    assert(steps.drop_first() =~= none);
    lemma_played_first(steps, seen, w, none);
}

proof fn lemma_restore_module(module: Text, text: Text, stamp: Text, seen: bool, w: World)
    requires
        paths::parent(module) is Some,
    ensures
        plays_back(UndoView::RestoreModule { module, text }, stamp, seen, w),
{
    let undo = UndoView::RestoreModule { module, text };
    let steps = transaction::undo_steps(undo, stamp);
    let none = Seq::<StepView>::empty();
    let second = seq![steps[1]];
    assert(steps.drop_first() =~= second);
    assert(second.drop_first() =~= none);
    lemma_played_first(steps, seen, w, second);
    lemma_played_first(second, seen, w, none);
}

proof fn lemma_undo_played(undo: UndoView, stamp: Text, seen: bool, w: World)
    requires
        can_take_back(undo),
    ensures
        plays_back(undo, stamp, seen, w),
{
    match undo {
        UndoView::RemoveCreated { link } => {
            lemma_remove_created(link, stamp, seen, w);
        },
        UndoView::RestorePrevious { link, backup } => {
            lemma_restore_previous(link, backup, stamp, seen, w);
        },
        UndoView::RemoveCreatedServiceOverride { service, override_path } => {
            lemma_remove_created_service_override(service, override_path, stamp, seen, w);
        },
        UndoView::RecreateActiveLink { link, target } => {
            lemma_recreate_active_link(link, target, stamp, seen, w);
        },
        UndoView::MoveRestoredBack { link, target, backup } => {
            lemma_move_restored_back(link, target, backup, stamp, seen, w);
        },
        UndoView::RestoreServiceOverride { service, override_path, text } => {
            lemma_restore_service_override(service, override_path, text, stamp, seen, w);
        },
        UndoView::ReinstallProfile { profile, store_path, priority } => {
            lemma_reinstall_profile(profile, store_path, priority, stamp, seen, w);
        },
        UndoView::RestoreModule { module, text } => {
            lemma_restore_module(module, text, stamp, seen, w);
        },
    }
}

/// What taking everything back makes of a machine, the last entry first.
pub open spec fn rolled_back(undo: Seq<UndoView>, w: World) -> World
    decreases undo.len(),
{
    if undo.len() == 0 {
        w
    } else {
        rolled_back(undo.drop_last(), taken_back(undo.last(), w))
    }
}

pub open spec fn can_roll_back(undo: Seq<UndoView>) -> bool {
    forall|i: int| 0 <= i < undo.len() ==> can_take_back(#[trigger] undo[i])
}

proof fn lemma_roll_back(s: RunView, w: World, fault: int, failure: FailureView)
    requires
        s.phase is Back,
        s.phase->errors.len() == 0,
        s.steps.len() == 0,
        can_roll_back(s.undo),
    ensures
        run(s.settled(), w, fault, failure).0.phase is Failed,
        run(s.settled(), w, fault, failure).1 == rolled_back(s.undo, w),
    decreases s.undo.len(),
{
    lemma_turn(s);
    if s.undo.len() == 0 {
        lemma_over(s.turned(), w, fault, failure);
    } else {
        let entry = s.undo.last();
        assert(can_take_back(entry));
        let turned = s.turned();
        lemma_undo_played(entry, s.stamp, s.seen, w);
        let seen = lemma_played(turned, w, fault, failure);
        let rest = RunView { steps: Seq::empty(), seen, ..turned };
        assert forall|i: int| 0 <= i < rest.undo.len() implies can_take_back(
            #[trigger] rest.undo[i],
        ) by {
            assert(rest.undo[i] == s.undo[i]);
        }
        lemma_roll_back(rest, taken_back(entry, w), fault, failure);
    }
}

/// Where an action fails on the way forward, everything is taken back.
proof fn lemma_failure_rolls_back(s: RunView, w: World, fault: int, failure: FailureView)
    requires
        at_action(s),
        s.phase is Forward,
        s.steps[0].severity == Severity::Abort,
        fault == 0 || performed(w, s.steps[0].action) is None,
        can_roll_back(s.undo),
    ensures
        run(s.settled(), w, fault, failure).0.phase is Failed,
        run(s.settled(), w, fault, failure).1 == rolled_back(s.undo, w),
{
    let message = lemma_fail(s, w, fault, failure);
    lemma_roll_back(s.after_failure(message), w, fault - 1, failure);
}

/// Where a step cannot be taken at all, everything is taken back.
proof fn lemma_refusal_rolls_back(s: RunView, w: World, fault: int, failure: FailureView)
    requires
        s.phase is Forward,
        s.steps.len() > 0,
        s.steps[0].when.holds(s.seen),
        s.steps[0].action is Refuse,
        s.steps[0].severity == Severity::Abort,
        can_roll_back(s.undo),
    ensures
        run(s.settled(), w, fault, failure).0.phase is Failed,
        run(s.settled(), w, fault, failure).1 == rolled_back(s.undo, w),
{
    let message = s.steps[0].action->message;
    assert(s.settled() == s.after_failure(message).settled()) by {
        reveal(RunView::settled);
    }
    lemma_roll_back(s.after_failure(message), w, fault, failure);
}

// ---- Going forward

/// Whether a transaction ended, having done everything or nothing.
pub open spec fn all_or_nothing(end: (RunView, World), before: World, goal: World) -> bool {
    ||| end.0.phase is Done && end.1 == goal
    ||| end.0.phase is Failed && end.1 == before
}

/// A transaction on its way forward, from where everything can be taken back.
pub open spec fn on_the_way(s: RunView, w: World, before: World) -> bool {
    &&& s.phase is Forward
    &&& can_roll_back(s.undo)
    &&& rolled_back(s.undo, w) == before
}

/// Takes the step at hand: either it succeeds, or everything is taken back.
proof fn lemma_step(s: RunView, w: World, before: World, fault: int, failure: FailureView) -> (next:
    Option<(World, ReplyView)>)
    requires
        on_the_way(s, w, before),
        at_action(s),
        s.steps[0].severity == Severity::Abort,
    ensures
        match next {
            None => {
                &&& run(s.settled(), w, fault, failure).0.phase is Failed
                &&& run(s.settled(), w, fault, failure).1 == before
                &&& fault == 0 || performed(w, s.steps[0].action) is None
            },
            Some((after, reply)) => {
                &&& performed(w, s.steps[0].action) == Some((after, reply))
                &&& run(s.settled(), w, fault, failure) == run(
                    s.after_success(reply).settled(),
                    after,
                    fault - 1,
                    failure,
                )
            },
        },
{
    if fault == 0 || performed(w, s.steps[0].action) is None {
        lemma_failure_rolls_back(s, w, fault, failure);
        None
    } else {
        lemma_take(s, w, fault, failure);
        performed(w, s.steps[0].action)
    }
}

/// Noting an entry that takes back exactly what was done keeps the way back.
proof fn lemma_note(s: RunView, entry: UndoView, w: World, after: World, before: World)
    requires
        on_the_way(s, w, before),
        can_take_back(entry),
        taken_back(entry, after) == w,
    ensures
        can_roll_back(s.undo.push(entry)),
        rolled_back(s.undo.push(entry), after) == before,
{
    let more = s.undo.push(entry);
    assert(more.drop_last() =~= s.undo);
    assert forall|i: int| 0 <= i < more.len() implies can_take_back(#[trigger] more[i]) by {
        if i < s.undo.len() {
            assert(more[i] == s.undo[i]);
        }
    }
}

/// A later state of the same transaction, further on by some steps.
pub open spec fn goes_on(
    s: RunView,
    w: World,
    fault: int,
    failure: FailureView,
    later: RunView,
    after: World,
    next: int,
) -> bool {
    &&& run(s.settled(), w, fault, failure) == run(later.settled(), after, next, failure)
    &&& fault < 0 ==> next < 0
}

/// Whether a transaction got as far as `next` says: past some steps, which made `after`
/// of the machine, or back to the beginning, unless all went smoothly.
pub open spec fn carried(
    s: RunView,
    w: World,
    before: World,
    fault: int,
    failure: FailureView,
    next: Option<(RunView, int)>,
    tail: Seq<StepView>,
    after: World,
    smooth: bool,
) -> bool {
    match next {
        None => {
            &&& run(s.settled(), w, fault, failure).0.phase is Failed
            &&& run(s.settled(), w, fault, failure).1 == before
            &&& !(fault < 0 && smooth)
        },
        Some((later, rest)) => {
            &&& goes_on(s, w, fault, failure, later, after, rest)
            &&& later.steps == tail
            &&& later.stamp == s.stamp
            &&& on_the_way(later, after, before)
        },
    }
}

// ---- Enabling

pub open spec fn link_enabled(link: LinkView, w: World) -> World {
    let active = Node::Link { target: place(link.target) };
    match link.previous {
        PreviousView::Absent => w.put(link.link, active),
        PreviousView::BackedUp { backup } => w.moved(link.link, backup).put(link.link, active),
    }
}

/// Whether a link and its backup are different places.
pub open spec fn whole(link: LinkView) -> bool {
    match link.previous {
        PreviousView::Absent => true,
        PreviousView::BackedUp { backup } => place(link.link) != place(backup),
    }
}

/// Whether the place for a link's backup is free.
pub open spec fn backup_free(link: LinkView, w: World) -> bool {
    match link.previous {
        PreviousView::Absent => true,
        PreviousView::BackedUp { backup } => !w.has(backup),
    }
}

/// Whether a link can be made as planned.
pub open spec fn link_ready(link: LinkView, w: World) -> bool {
    &&& paths::parent(link.link) is Some
    &&& match link.previous {
        PreviousView::Absent => !w.has(link.link),
        PreviousView::BackedUp { backup } => w.has(link.link) && !w.has(backup),
    }
}

proof fn lemma_new_link(
    link: LinkView,
    s: RunView,
    tail: Seq<StepView>,
    w: World,
    before: World,
    fault: int,
    failure: FailureView,
) -> (next: Option<(RunView, int)>)
    requires
        on_the_way(s, w, before),
        link.previous is Absent,
        s.steps == scripts::place_link(link) + tail,
    ensures
        carried(
            s,
            w,
            before,
            fault,
            failure,
            next,
            tail,
            link_enabled(link, w),
            !w.has(link.link),
        ),
{
    let steps = scripts::place_link(link);
    let after = link_enabled(link, w);
    assert(s.steps[0] == steps[0]);
    match lemma_step(s, w, before, fault, failure) {
        None => None,
        Some((_, reply)) => {
            let s1 = s.after_success(reply);
            assert(s1.steps =~= seq![steps[1], steps[2]] + tail);
            assert(s1.seen == w.has(link.link));
            if s1.seen {
                lemma_refusal_rolls_back(s1, w, fault - 1, failure);
                None
            } else {
                let s2 = s1.past();
                lemma_skip(s1);
                assert(s2.steps =~= seq![steps[2]] + tail);
                match lemma_step(s2, w, before, fault - 1, failure) {
                    None => None,
                    Some((_, reply)) => {
                        let s3 = s2.after_success(reply);
                        let entry = UndoView::RemoveCreated { link: link.link };
                        assert(s3.steps =~= tail);
                        assert(s3.undo == s.undo.push(entry));
                        assert(after.without(link.link).files =~= w.files);
                        lemma_note(s, entry, w, after, before);
                        Some((s3, fault - 2))
                    },
                }
            }
        },
    }
}

proof fn lemma_shadowing_link(
    link: LinkView,
    backup: Text,
    s: RunView,
    tail: Seq<StepView>,
    w: World,
    before: World,
    fault: int,
    failure: FailureView,
) -> (next: Option<(RunView, int)>)
    requires
        on_the_way(s, w, before),
        link.previous == (PreviousView::BackedUp { backup }),
        s.steps == scripts::place_link(link) + tail,
        whole(link),
        !w.has(backup),
    ensures
        carried(
            s,
            w,
            before,
            fault,
            failure,
            next,
            tail,
            link_enabled(link, w),
            w.has(link.link),
        ),
{
    let steps = scripts::place_link(link);
    let moved = w.moved(link.link, backup);
    let after = link_enabled(link, w);
    assert(s.steps[0] == steps[0]);
    match lemma_step(s, w, before, fault, failure) {
        None => None,
        Some((_, reply)) => {
            let s1 = s.after_success(reply);
            let entry = UndoView::RestorePrevious { link: link.link, backup };
            assert(s1.steps =~= seq![steps[1]] + tail);
            assert(s1.undo == s.undo.push(entry));
            assert(taken_back(entry, moved).files =~= w.files);
            lemma_note(s, entry, w, moved, before);
            match lemma_step(s1, moved, before, fault - 1, failure) {
                None => None,
                Some((_, reply)) => {
                    let s2 = s1.after_success(reply);
                    assert(s2.steps =~= tail);
                    assert(taken_back(entry, after).files =~= w.files);
                    lemma_note(s, entry, w, after, before);
                    Some((s2, fault - 2))
                },
            }
        },
    }
}

proof fn lemma_link_enabled(
    link: LinkView,
    s: RunView,
    tail: Seq<StepView>,
    w: World,
    before: World,
    fault: int,
    failure: FailureView,
) -> (next: Option<(RunView, int)>)
    requires
        on_the_way(s, w, before),
        s.steps == scripts::link_steps(link) + tail,
        whole(link),
        backup_free(link, w),
    ensures
        carried(
            s,
            w,
            before,
            fault,
            failure,
            next,
            tail,
            link_enabled(link, w),
            link_ready(link, w),
        ),
{
    let steps = scripts::link_steps(link);
    assert(s.steps[0] == steps[0]);
    if paths::parent(link.link) is None {
        lemma_refusal_rolls_back(s, w, fault, failure);
        None
    } else {
        match lemma_step(s, w, before, fault, failure) {
            None => None,
            Some((_, reply)) => {
                let s1 = s.after_success(reply);
                assert(s1.steps =~= scripts::place_link(link) + tail);
                match link.previous {
                    PreviousView::Absent => lemma_new_link(
                        link,
                        s1,
                        tail,
                        w,
                        before,
                        fault - 1,
                        failure,
                    ),
                    PreviousView::BackedUp { backup } => lemma_shadowing_link(
                        link,
                        backup,
                        s1,
                        tail,
                        w,
                        before,
                        fault - 1,
                        failure,
                    ),
                }
            },
        }
    }
}

pub open spec fn service_enabled(service: ServiceView, w: World) -> World {
    w.put(
        service.override_path,
        Node::File { text: scripts::override_text(service.exec_start) },
    )
}

proof fn lemma_service_enabled(
    service: ServiceView,
    s: RunView,
    tail: Seq<StepView>,
    w: World,
    before: World,
    fault: int,
    failure: FailureView,
) -> (next: Option<(RunView, int)>)
    requires
        on_the_way(s, w, before),
        s.steps == scripts::service_steps(service, s.stamp) + tail,
        !w.has(service.override_path),
    ensures
        carried(
            s,
            w,
            before,
            fault,
            failure,
            next,
            tail,
            service_enabled(service, w),
            paths::parent(service.override_path) is Some,
        ),
{
    let steps = scripts::service_steps(service, s.stamp);
    let written = service_enabled(service, w);
    assert(s.steps[0] == steps[0]);
    if paths::parent(service.override_path) is None {
        lemma_refusal_rolls_back(s, w, fault, failure);
        None
    } else {
        match lemma_step(s, w, before, fault, failure) {
            None => None,
            Some((_, reply)) => {
                let s1 = s.after_success(reply);
                assert(s1.steps =~= seq![steps[1], steps[2], steps[3]] + tail);
                match lemma_step(s1, w, before, fault - 1, failure) {
                    None => None,
                    Some((_, reply)) => {
                        let s2 = s1.after_success(reply);
                        assert(s2.steps =~= seq![steps[2], steps[3]] + tail);
                        assert(s2.steps.skip(2) =~= tail);
                        let entry = UndoView::RemoveCreatedServiceOverride {
                            service: service.service,
                            override_path: service.override_path,
                        };
                        assert(s2.undo == s.undo.push(entry));
                        assert(taken_back(entry, written).files =~= w.files);
                        lemma_note(s, entry, w, written, before);
                        lemma_two_commands(s2, tail, written, before, fault - 2, failure)
                    },
                }
            },
        }
    }
}

/// Telling systemd changes no file.
proof fn lemma_two_commands(
    s: RunView,
    tail: Seq<StepView>,
    w: World,
    before: World,
    fault: int,
    failure: FailureView,
) -> (next: Option<(RunView, int)>)
    requires
        on_the_way(s, w, before),
        s.steps.len() == 2 + tail.len(),
        s.steps.skip(2) == tail,
        s.steps[0].action is Systemctl,
        s.steps[1].action is Systemctl,
        s.steps[0] == transaction::firm(s.steps[0].action, s.steps[0].context),
        s.steps[1] == transaction::firm(s.steps[1].action, s.steps[1].context),
    ensures
        carried(s, w, before, fault, failure, next, tail, w, true),
{
    match lemma_step(s, w, before, fault, failure) {
        None => None,
        Some((_, reply)) => {
            let s1 = s.after_success(reply);
            assert(s1.steps[0] == s.steps[1]);
            match lemma_step(s1, w, before, fault - 1, failure) {
                None => None,
                Some((_, reply)) => {
                    let s2 = s1.after_success(reply);
                    assert(s2.steps =~= tail);
                    Some((s2, fault - 2))
                },
            }
        },
    }
}

pub open spec fn links_enabled(links: Seq<LinkView>, w: World) -> World
    decreases links.len(),
{
    if links.len() == 0 {
        w
    } else {
        links_enabled(links.drop_first(), link_enabled(links[0], w))
    }
}

pub open spec fn services_enabled(services: Seq<ServiceView>, w: World) -> World
    decreases services.len(),
{
    if services.len() == 0 {
        w
    } else {
        services_enabled(services.drop_first(), service_enabled(services[0], w))
    }
}

/// What an activation makes of a machine.
pub open spec fn enabled(record: RecordView, p: PathsView, contents: Text, w: World) -> World {
    services_enabled(record.services, links_enabled(record.links, w)).put(
        p.record_path(record.key),
        Node::File { text: contents },
    )
}

/// Whether a link and its backup are elsewhere than a path.
pub open spec fn stands_apart(link: LinkView, path: Text) -> bool {
    &&& place(link.link) != place(path)
    &&& match link.previous {
        PreviousView::Absent => true,
        PreviousView::BackedUp { backup } => place(backup) != place(path),
    }
}

/// Whether two links, and their backups, are in different places.
pub open spec fn apart(a: LinkView, b: LinkView) -> bool {
    &&& stands_apart(a, b.link)
    &&& match b.previous {
        PreviousView::Absent => true,
        PreviousView::BackedUp { backup } => stands_apart(a, backup),
    }
}

pub open spec fn links_apart(links: Seq<LinkView>) -> bool {
    &&& forall|i: int| 0 <= i < links.len() ==> whole(#[trigger] links[i])
    &&& forall|i: int, j: int|
        0 <= i < j < links.len() ==> apart(#[trigger] links[i], #[trigger] links[j])
}

pub open spec fn services_apart(services: Seq<ServiceView>) -> bool {
    forall|i: int, j: int|
        0 <= i < j < services.len() ==> place(#[trigger] services[i].override_path) != place(
            #[trigger] services[j].override_path,
        )
}

pub open spec fn links_and_services_apart(links: Seq<LinkView>, services: Seq<ServiceView>) -> bool {
    forall|i: int, j: int|
        0 <= i < links.len() && 0 <= j < services.len() ==> stands_apart(
            #[trigger] links[i],
            #[trigger] services[j].override_path,
        )
}

/// Whether everything that a record speaks of is in a place of its own.
pub open spec fn laid_apart(record: RecordView, p: PathsView) -> bool {
    let own = p.record_path(record.key);
    &&& links_apart(record.links)
    &&& services_apart(record.services)
    &&& links_and_services_apart(record.links, record.services)
    &&& forall|i: int| 0 <= i < record.links.len() ==> stands_apart(#[trigger] record.links[i], own)
    &&& forall|i: int|
        0 <= i < record.services.len() ==> place(#[trigger] record.services[i].override_path)
            != place(own)
}

pub open spec fn backups_free(links: Seq<LinkView>, w: World) -> bool {
    forall|i: int| 0 <= i < links.len() ==> backup_free(#[trigger] links[i], w)
}

pub open spec fn links_ready(links: Seq<LinkView>, w: World) -> bool {
    forall|i: int| 0 <= i < links.len() ==> link_ready(#[trigger] links[i], w)
}

pub open spec fn overrides_free(services: Seq<ServiceView>, w: World) -> bool {
    forall|i: int| 0 <= i < services.len() ==> !w.has(#[trigger] services[i].override_path)
}

pub open spec fn services_ready(services: Seq<ServiceView>) -> bool {
    forall|i: int|
        0 <= i < services.len() ==> paths::parent(#[trigger] services[i].override_path) is Some
}

pub(crate) proof fn lemma_record_written(
    key: Text,
    p: PathsView,
    contents: Text,
    s: RunView,
    w: World,
    before: World,
    fault: int,
    failure: FailureView,
)
    requires
        on_the_way(s, w, before),
        s.steps == scripts::record_steps(key, p, contents, s.stamp),
    ensures
        all_or_nothing(
            run(s.settled(), w, fault, failure),
            before,
            w.put(p.record_path(key), Node::File { text: contents }),
        ),
        fault < 0 ==> run(s.settled(), w, fault, failure).0.phase is Done,
{
    let steps = scripts::record_steps(key, p, contents, s.stamp);
    if let Some((_, reply)) = lemma_step(s, w, before, fault, failure) {
        let s1 = s.after_success(reply);
        assert(s1.steps =~= seq![steps[1]]);
        if let Some((after, reply)) = lemma_step(s1, w, before, fault - 1, failure) {
            let s2 = s1.after_success(reply);
            assert(s2.steps =~= Seq::empty());
            lemma_turn(s2);
            lemma_over(s2.turned(), after, fault - 2, failure);
        }
    }
}

proof fn lemma_services_enabled(
    services: Seq<ServiceView>,
    key: Text,
    p: PathsView,
    contents: Text,
    s: RunView,
    w: World,
    before: World,
    fault: int,
    failure: FailureView,
)
    requires
        on_the_way(s, w, before),
        s.steps == scripts::all_service_steps(services, s.stamp) + scripts::record_steps(
            key,
            p,
            contents,
            s.stamp,
        ),
        services_apart(services),
        overrides_free(services, w),
    ensures
        all_or_nothing(
            run(s.settled(), w, fault, failure),
            before,
            services_enabled(services, w).put(p.record_path(key), Node::File { text: contents }),
        ),
        fault < 0 && services_ready(services) ==> run(s.settled(), w, fault, failure).0.phase
            is Done,
    decreases services.len(),
{
    let written = scripts::record_steps(key, p, contents, s.stamp);
    if services.len() == 0 {
        assert(s.steps =~= written);
        lemma_record_written(key, p, contents, s, w, before, fault, failure);
    } else {
        let service = services[0];
        let others = services.drop_first();
        let tail = scripts::all_service_steps(others, s.stamp) + written;
        assert(s.steps =~= scripts::service_steps(service, s.stamp) + tail);
        assert(!w.has(service.override_path));
        let after = service_enabled(service, w);
        assert forall|i: int| 0 <= i < others.len() implies {
            !after.has(#[trigger] others[i].override_path)
        } by {
            assert(others[i] == services[i + 1]);
            assert(place(services[0].override_path) != place(services[i + 1].override_path));
        }
        assert forall|i: int, j: int| 0 <= i < j < others.len() implies place(
            #[trigger] others[i].override_path,
        ) != place(#[trigger] others[j].override_path) by {
            assert(others[i] == services[i + 1] && others[j] == services[j + 1]);
        }
        if services_ready(services) {
            assert(paths::parent(services[0].override_path) is Some);
            assert forall|i: int| 0 <= i < others.len() implies paths::parent(
                #[trigger] others[i].override_path,
            ) is Some by {
                assert(others[i] == services[i + 1]);
            }
        }
        if let Some((later, rest)) = lemma_service_enabled(
            service,
            s,
            tail,
            w,
            before,
            fault,
            failure,
        ) {
            lemma_services_enabled(
                others,
                key,
                p,
                contents,
                later,
                after,
                before,
                rest,
                failure,
            );
        }
    }
}

/// Making a link leaves every place that is apart from it as it was.
proof fn lemma_link_frame(link: LinkView, path: Text, w: World)
    requires
        stands_apart(link, path),
    ensures
        link_enabled(link, w).has(path) == w.has(path),
        link_enabled(link, w).files[place(path)] == w.files[place(path)],
{
}

proof fn lemma_links_enabled(
    links: Seq<LinkView>,
    services: Seq<ServiceView>,
    key: Text,
    p: PathsView,
    contents: Text,
    s: RunView,
    w: World,
    before: World,
    fault: int,
    failure: FailureView,
)
    requires
        on_the_way(s, w, before),
        s.steps == scripts::all_link_steps(links) + (scripts::all_service_steps(services, s.stamp)
            + scripts::record_steps(key, p, contents, s.stamp)),
        links_apart(links),
        services_apart(services),
        links_and_services_apart(links, services),
        backups_free(links, w),
        overrides_free(services, w),
    ensures
        all_or_nothing(
            run(s.settled(), w, fault, failure),
            before,
            services_enabled(services, links_enabled(links, w)).put(
                p.record_path(key),
                Node::File { text: contents },
            ),
        ),
        fault < 0 && links_ready(links, w) && services_ready(services) ==> run(
            s.settled(),
            w,
            fault,
            failure,
        ).0.phase is Done,
    decreases links.len(),
{
    let end = scripts::all_service_steps(services, s.stamp) + scripts::record_steps(
        key,
        p,
        contents,
        s.stamp,
    );
    if links.len() == 0 {
        assert(s.steps =~= end);
        lemma_services_enabled(services, key, p, contents, s, w, before, fault, failure);
    } else {
        let link = links[0];
        let others = links.drop_first();
        let tail = scripts::all_link_steps(others) + end;
        assert(s.steps =~= scripts::link_steps(link) + tail);
        let after = link_enabled(link, w);
        assert(whole(links[0]) && backup_free(links[0], w));
        assert forall|i: int| 0 <= i < others.len() implies {
            &&& whole(#[trigger] others[i])
            &&& backup_free(others[i], after)
            &&& link_ready(others[i], w) ==> link_ready(others[i], after)
        } by {
            assert(others[i] == links[i + 1]);
            assert(apart(links[0], links[i + 1]));
            assert(backup_free(links[i + 1], w));
            lemma_link_frame(link, others[i].link, w);
            if let PreviousView::BackedUp { backup } = others[i].previous {
                lemma_link_frame(link, backup, w);
            }
        }
        assert forall|i: int, j: int| 0 <= i < j < others.len() implies apart(
            #[trigger] others[i],
            #[trigger] others[j],
        ) by {
            assert(others[i] == links[i + 1] && others[j] == links[j + 1]);
        }
        assert forall|i: int| 0 <= i < services.len() implies !after.has(
            #[trigger] services[i].override_path,
        ) by {
            assert(stands_apart(links[0], services[i].override_path));
            lemma_link_frame(link, services[i].override_path, w);
        }
        assert forall|i: int, j: int|
            0 <= i < others.len() && 0 <= j < services.len() implies stands_apart(
            #[trigger] others[i],
            #[trigger] services[j].override_path,
        ) by {
            assert(others[i] == links[i + 1]);
        }
        if links_ready(links, w) {
            assert(link_ready(links[0], w));
            assert forall|i: int| 0 <= i < others.len() implies link_ready(
                #[trigger] others[i],
                after,
            ) by {
                assert(others[i] == links[i + 1]);
                assert(link_ready(links[i + 1], w));
            }
        }
        if let Some((later, rest)) = lemma_link_enabled(link, s, tail, w, before, fault, failure) {
            lemma_links_enabled(
                others,
                services,
                key,
                p,
                contents,
                later,
                after,
                before,
                rest,
                failure,
            );
        }
    }
}

pub(crate) proof fn lemma_enabling(
    record: RecordView,
    p: PathsView,
    contents: Text,
    stamp: Text,
    w: World,
    fault: int,
    failure: FailureView,
)
    requires
        laid_apart(record, p),
        backups_free(record.links, w),
        overrides_free(record.services, w),
    ensures
        ({
            let start = transaction::begun(
                Direction::Activation,
                scripts::enable_steps(record, p, contents, stamp),
                stamp,
            ).settled();
            &&& all_or_nothing(
                run(start, w, fault, failure),
                w,
                enabled(record, p, contents, w),
            )
            &&& fault < 0 && links_ready(record.links, w) && services_ready(record.services)
                ==> run(start, w, fault, failure).0.phase is Done
        }),
{
    let steps = scripts::enable_steps(record, p, contents, stamp);
    let s = transaction::begun(Direction::Activation, steps, stamp);
    let tail = scripts::all_link_steps(record.links) + (scripts::all_service_steps(
        record.services,
        stamp,
    ) + scripts::record_steps(record.key, p, contents, stamp));
    assert(on_the_way(s, w, w));
    if let Some((_, reply)) = lemma_step(s, w, w, fault, failure) {
        let s1 = s.after_success(reply);
        assert(s1.steps =~= tail);
        lemma_links_enabled(
            record.links,
            record.services,
            record.key,
            p,
            contents,
            s1,
            w,
            w,
            fault - 1,
            failure,
        );
    }
}

// ---- Disabling

pub open spec fn link_disabled(link: LinkView, w: World) -> World {
    match link.previous {
        PreviousView::Absent => w.without(link.link),
        PreviousView::BackedUp { backup } => w.without(link.link).moved(backup, link.link),
    }
}

pub open spec fn links_disabled(links: Seq<LinkView>, w: World) -> World
    decreases links.len(),
{
    if links.len() == 0 {
        w
    } else {
        links_disabled(links.drop_first(), link_disabled(links[0], w))
    }
}

pub open spec fn services_disabled(services: Seq<ServiceView>, w: World) -> World
    decreases services.len(),
{
    if services.len() == 0 {
        w
    } else {
        services_disabled(services.drop_first(), w.without(services[0].override_path))
    }
}

pub open spec fn profile_disabled(profile: ProfileView, w: World) -> World {
    World { installed: w.installed.remove((profile.profile, place(profile.store_path))), ..w }
}

pub open spec fn profiles_disabled(installed: Seq<ProfileView>, w: World) -> World
    decreases installed.len(),
{
    if installed.len() == 0 {
        w
    } else {
        profiles_disabled(installed.drop_first(), profile_disabled(installed[0], w))
    }
}

pub open spec fn module_disabled(module: ModuleView, w: World) -> World {
    w.put(module.module, Node::File { text: scripts::disabled_text(module) })
}

pub open spec fn modules_disabled(modules: Seq<ModuleView>, w: World) -> World
    decreases modules.len(),
{
    if modules.len() == 0 {
        w
    } else {
        modules_disabled(modules.drop_first(), module_disabled(modules[0], w))
    }
}

/// What undoing an activation makes of a machine.
pub open spec fn disabled(record: RecordView, p: PathsView, w: World) -> World {
    modules_disabled(
        record.modules,
        profiles_disabled(
            record.profiles,
            services_disabled(record.services, links_disabled(record.links, w)),
        ),
    ).without(p.record_path(record.key))
}

/// Whether a link, if it is there, is the one that was made.
pub open spec fn link_intact(link: LinkView, w: World) -> bool {
    w.has(link.link) ==> w.files[place(link.link)] == (Node::Link { target: place(link.target) })
}

/// Whether a link, and what it displaced, are there.
pub open spec fn link_present(link: LinkView, w: World) -> bool {
    &&& w.has(link.link)
    &&& match link.previous {
        PreviousView::Absent => true,
        PreviousView::BackedUp { backup } => w.has(backup),
    }
}

proof fn lemma_link_disabled(
    link: LinkView,
    s: RunView,
    tail: Seq<StepView>,
    w: World,
    before: World,
    fault: int,
    failure: FailureView,
) -> (next: Option<(RunView, int)>)
    requires
        on_the_way(s, w, before),
        s.steps == scripts::unlink_steps(link) + tail,
        whole(link),
        link_intact(link, w),
    ensures
        carried(
            s,
            w,
            before,
            fault,
            failure,
            next,
            tail,
            link_disabled(link, w),
            link_present(link, w),
        ),
{
    let steps = scripts::unlink_steps(link);
    let cleared = w.without(link.link);
    let after = link_disabled(link, w);
    let removed = UndoView::RecreateActiveLink { link: link.link, target: link.target };
    assert(s.steps[0] == steps[0]);
    match lemma_step(s, w, before, fault, failure) {
        None => None,
        Some((_, reply)) => {
            let s1 = s.after_success(reply);
            assert(s1.undo == s.undo.push(removed));
            assert(taken_back(removed, cleared).files =~= w.files);
            lemma_note(s, removed, w, cleared, before);
            match link.previous {
                PreviousView::Absent => {
                    assert(s1.steps =~= tail);
                    Some((s1, fault - 1))
                },
                PreviousView::BackedUp { backup } => {
                    assert(s1.steps =~= seq![steps[1]] + tail);
                    match lemma_step(s1, cleared, before, fault - 1, failure) {
                        None => None,
                        Some((_, reply)) => {
                            let s2 = s1.after_success(reply);
                            let restored = UndoView::MoveRestoredBack {
                                link: link.link,
                                target: link.target,
                                backup,
                            };
                            assert(s2.steps =~= tail);
                            assert(s1.undo.drop_last() =~= s.undo);
                            assert(s2.undo == s.undo.push(restored));
                            assert(taken_back(restored, after).files =~= w.files);
                            lemma_note(s, restored, w, after, before);
                            Some((s2, fault - 2))
                        },
                    }
                },
            }
        },
    }
}

/// Whether an override is there and can be read.
pub open spec fn override_present(service: ServiceView, w: World) -> bool {
    w.has(service.override_path) && w.files[place(service.override_path)] is File
}

proof fn lemma_service_disabled(
    service: ServiceView,
    s: RunView,
    tail: Seq<StepView>,
    w: World,
    before: World,
    fault: int,
    failure: FailureView,
) -> (next: Option<(RunView, int)>)
    requires
        on_the_way(s, w, before),
        s.steps == scripts::release_steps(service) + tail,
        paths::parent(service.override_path) is Some,
    ensures
        carried(
            s,
            w,
            before,
            fault,
            failure,
            next,
            tail,
            w.without(service.override_path),
            override_present(service, w),
        ),
{
    let steps = scripts::release_steps(service);
    let cleared = w.without(service.override_path);
    assert(s.steps[0] == steps[0]);
    match lemma_step(s, w, before, fault, failure) {
        None => None,
        Some((_, reply)) => {
            let s1 = s.after_success(reply);
            assert(s1.steps =~= seq![steps[1], steps[2], steps[3]] + tail);
            assert(w.files[place(service.override_path)] == (Node::File { text: s1.held }));
            match lemma_step(s1, w, before, fault - 1, failure) {
                None => None,
                Some((_, reply)) => {
                    let s2 = s1.after_success(reply);
                    let entry = UndoView::RestoreServiceOverride {
                        service: service.service,
                        override_path: service.override_path,
                        text: s1.held,
                    };
                    assert(s2.steps =~= seq![steps[2], steps[3]] + tail);
                    assert(s2.steps.skip(2) =~= tail);
                    assert(s2.undo == s.undo.push(entry));
                    assert(taken_back(entry, cleared).files =~= w.files);
                    lemma_note(s, entry, w, cleared, before);
                    lemma_two_commands(s2, tail, cleared, before, fault - 2, failure)
                },
            }
        },
    }
}

pub(crate) proof fn lemma_listing(w: World, profile: Option<Text>, store_path: Text)
    ensures
        (profiles::element_for(listing_in(w, profile, store_path), store_path) is Some)
            == w.provides(profile, store_path),
{
    if w.provides(profile, store_path) {
        let listing = listing_in(w, profile, store_path);
        assert(paths::same_path(listing[0].store_paths[0], store_path));
        assert(profiles::provides(listing[0], store_path));
    }
}

proof fn lemma_profile_disabled(
    profile: ProfileView,
    s: RunView,
    tail: Seq<StepView>,
    w: World,
    before: World,
    fault: int,
    failure: FailureView,
) -> (next: Option<(RunView, int)>)
    requires
        on_the_way(s, w, before),
        s.steps == scripts::uninstall_steps(profile) + tail,
    ensures
        carried(
            s,
            w,
            before,
            fault,
            failure,
            next,
            tail,
            profile_disabled(profile, w),
            true,
        ),
{
    let steps = scripts::uninstall_steps(profile);
    let after = profile_disabled(profile, w);
    assert(s.steps[0] == steps[0]);
    lemma_listing(w, profile.profile, profile.store_path);
    match lemma_step(s, w, before, fault, failure) {
        None => None,
        Some((_, reply)) => {
            let s1 = s.after_success(reply);
            assert(s1.steps =~= seq![steps[1]] + tail);
            assert(s1.seen == w.provides(profile.profile, profile.store_path));
            if s1.seen {
                match lemma_step(s1, w, before, fault - 1, failure) {
                    None => None,
                    Some((_, reply)) => {
                        let s2 = s1.after_success(reply);
                        let entry = UndoView::ReinstallProfile {
                            profile: profile.profile,
                            store_path: profile.store_path,
                            priority: profile.priority,
                        };
                        assert(s2.steps =~= tail);
                        assert(s2.undo == s.undo.push(entry));
                        assert(taken_back(entry, after).installed =~= w.installed);
                        lemma_note(s, entry, w, after, before);
                        Some((s2, fault - 2))
                    },
                }
            } else {
                lemma_skip(s1);
                let s2 = s1.past();
                assert(s2.steps =~= tail);
                assert(after.installed =~= w.installed);
                Some((s2, fault - 1))
            }
        },
    }
}

proof fn lemma_module_disabled(
    module: ModuleView,
    s: RunView,
    tail: Seq<StepView>,
    w: World,
    before: World,
    fault: int,
    failure: FailureView,
) -> (next: Option<(RunView, int)>)
    requires
        on_the_way(s, w, before),
        s.steps == scripts::retire_steps(module, s.stamp) + tail,
    ensures
        carried(
            s,
            w,
            before,
            fault,
            failure,
            next,
            tail,
            module_disabled(module, w),
            false,
        ),
{
    let steps = scripts::retire_steps(module, s.stamp);
    let after = module_disabled(module, w);
    assert(s.steps[0] == steps[0]);
    match lemma_step(s, w, before, fault, failure) {
        None => None,
        Some((_, reply)) => {
            let s1 = s.after_success(reply);
            assert(w.files[place(module.module)] == (Node::File { text: s1.held }));
            if paths::parent(module.module) is None {
                assert(s1.steps =~= seq![steps[1]] + tail);
                lemma_refusal_rolls_back(s1, w, fault - 1, failure);
                None
            } else {
                assert(s1.steps =~= seq![steps[1], steps[2]] + tail);
                match lemma_step(s1, w, before, fault - 1, failure) {
                    None => None,
                    Some((_, reply)) => {
                        let s2 = s1.after_success(reply);
                        assert(s2.steps =~= seq![steps[2]] + tail);
                        match lemma_step(s2, w, before, fault - 2, failure) {
                            None => None,
                            Some((_, reply)) => {
                                let s3 = s2.after_success(reply);
                                let entry = UndoView::RestoreModule {
                                    module: module.module,
                                    text: s1.held,
                                };
                                assert(s3.steps =~= tail);
                                assert(s3.undo == s.undo.push(entry));
                                assert(taken_back(entry, after).files =~= w.files);
                                lemma_note(s, entry, w, after, before);
                                Some((s3, fault - 3))
                            },
                        }
                    },
                }
            }
        },
    }
}

/// Whether steps only tidy up.
pub open spec fn only_tidying(steps: Seq<StepView>) -> bool {
    forall|i: int|
        0 <= i < steps.len() ==> exists|path: Text|
            #[trigger] steps[i] == transaction::remove_dir(path)
}

/// Tidying up always comes to its end, whatever fails.
proof fn lemma_tidied(s: RunView, w: World, fault: int, failure: FailureView)
    requires
        s.phase is Forward,
        only_tidying(s.steps),
    ensures
        run(s.settled(), w, fault, failure).0.phase is Done,
        run(s.settled(), w, fault, failure).1 == w,
    decreases s.steps.len(),
{
    if s.steps.len() == 0 {
        lemma_turn(s);
        lemma_over(s.turned(), w, fault, failure);
    } else {
        let step = s.steps[0];
        let later = s.past();
        assert forall|i: int| 0 <= i < later.steps.len() implies exists|path: Text|
            #[trigger] later.steps[i] == transaction::remove_dir(path) by {
            assert(later.steps[i] == s.steps[i + 1]);
        }
        if fault == 0 {
            let message = lemma_fail(s, w, fault, failure);
            assert(s.after_failure(message) == later);
        } else {
            lemma_take(s, w, fault, failure);
            let (_, reply) = performed(w, step.action)->Some_0;
            assert(s.after_success(reply) == later);
        }
        lemma_tidied(later, w, fault - 1, failure);
    }
}

proof fn lemma_tidy_steps(services: Seq<ServiceView>)
    ensures
        only_tidying(scripts::all_tidy_steps(services)),
    decreases services.len(),
{
    if services.len() > 0 {
        let first = scripts::tidy_steps(services[0]);
        let rest = scripts::all_tidy_steps(services.drop_first());
        let all = scripts::all_tidy_steps(services);
        lemma_tidy_steps(services.drop_first());
        assert(all =~= first + rest);
        assert forall|i: int| 0 <= i < all.len() implies exists|path: Text|
            #[trigger] all[i] == transaction::remove_dir(path) by {
            if i < first.len() {
                assert(all[i] == transaction::remove_dir(
                    paths::parent(services[0].override_path)->Some_0,
                ));
            } else {
                assert(all[i] == rest[i - first.len()]);
            }
        }
    }
}

proof fn lemma_forgotten(
    record: RecordView,
    p: PathsView,
    s: RunView,
    w: World,
    before: World,
    fault: int,
    failure: FailureView,
)
    requires
        on_the_way(s, w, before),
        s.steps == scripts::forget_steps(record, p),
    ensures
        all_or_nothing(
            run(s.settled(), w, fault, failure),
            before,
            w.without(p.record_path(record.key)),
        ),
        fault < 0 && w.has(p.record_path(record.key)) ==> run(
            s.settled(),
            w,
            fault,
            failure,
        ).0.phase is Done,
{
    let steps = scripts::forget_steps(record, p);
    let tidy = scripts::all_tidy_steps(record.services);
    let dir = p.activation_dir(record.key);
    if let Some((after, reply)) = lemma_step(s, w, before, fault, failure) {
        let s1 = s.after_success(reply);
        assert(s1.steps =~= seq![steps[1], steps[2]] + tidy);
        lemma_tidy_steps(record.services);
        assert forall|i: int| 0 <= i < s1.steps.len() implies exists|path: Text|
            #[trigger] s1.steps[i] == transaction::remove_dir(path) by {
            if i == 0 {
                assert(s1.steps[i] == transaction::remove_dir(paths::joined(dir, "backups"@)));
            } else if i == 1 {
                assert(s1.steps[i] == transaction::remove_dir(dir));
            } else {
                assert(s1.steps[i] == tidy[i - 2]);
            }
        }
        lemma_tidied(s1, after, fault - 1, failure);
    }
}

proof fn lemma_modules_disabled(
    modules: Seq<ModuleView>,
    record: RecordView,
    p: PathsView,
    s: RunView,
    w: World,
    before: World,
    fault: int,
    failure: FailureView,
)
    requires
        on_the_way(s, w, before),
        s.steps == scripts::all_retire_steps(modules, s.stamp) + scripts::forget_steps(record, p),
    ensures
        all_or_nothing(
            run(s.settled(), w, fault, failure),
            before,
            modules_disabled(modules, w).without(p.record_path(record.key)),
        ),
        fault < 0 && modules.len() == 0 && w.has(p.record_path(record.key)) ==> run(
            s.settled(),
            w,
            fault,
            failure,
        ).0.phase is Done,
    decreases modules.len(),
{
    let forget = scripts::forget_steps(record, p);
    if modules.len() == 0 {
        assert(s.steps =~= forget);
        lemma_forgotten(record, p, s, w, before, fault, failure);
    } else {
        let tail = scripts::all_retire_steps(modules.drop_first(), s.stamp) + forget;
        assert(s.steps =~= scripts::retire_steps(modules[0], s.stamp) + tail);
        if let Some((later, rest)) = lemma_module_disabled(
            modules[0],
            s,
            tail,
            w,
            before,
            fault,
            failure,
        ) {
            lemma_modules_disabled(
                modules.drop_first(),
                record,
                p,
                later,
                module_disabled(modules[0], w),
                before,
                rest,
                failure,
            );
        }
    }
}

proof fn lemma_profiles_disabled(
    installed: Seq<ProfileView>,
    record: RecordView,
    p: PathsView,
    s: RunView,
    w: World,
    before: World,
    fault: int,
    failure: FailureView,
)
    requires
        on_the_way(s, w, before),
        s.steps == scripts::all_uninstall_steps(installed) + (scripts::all_retire_steps(
            record.modules,
            s.stamp,
        ) + scripts::forget_steps(record, p)),
    ensures
        all_or_nothing(
            run(s.settled(), w, fault, failure),
            before,
            modules_disabled(record.modules, profiles_disabled(installed, w)).without(
                p.record_path(record.key),
            ),
        ),
        fault < 0 && record.modules.len() == 0 && w.has(p.record_path(record.key)) ==> run(
            s.settled(),
            w,
            fault,
            failure,
        ).0.phase is Done,
    decreases installed.len(),
{
    let end = scripts::all_retire_steps(record.modules, s.stamp) + scripts::forget_steps(record, p);
    if installed.len() == 0 {
        assert(s.steps =~= end);
        lemma_modules_disabled(record.modules, record, p, s, w, before, fault, failure);
    } else {
        let tail = scripts::all_uninstall_steps(installed.drop_first()) + end;
        assert(s.steps =~= scripts::uninstall_steps(installed[0]) + tail);
        if let Some((later, rest)) = lemma_profile_disabled(
            installed[0],
            s,
            tail,
            w,
            before,
            fault,
            failure,
        ) {
            lemma_profiles_disabled(
                installed.drop_first(),
                record,
                p,
                later,
                profile_disabled(installed[0], w),
                before,
                rest,
                failure,
            );
        }
    }
}

pub open spec fn overrides_present(services: Seq<ServiceView>, w: World) -> bool {
    forall|i: int| 0 <= i < services.len() ==> override_present(#[trigger] services[i], w)
}

pub open spec fn links_intact(links: Seq<LinkView>, w: World) -> bool {
    forall|i: int| 0 <= i < links.len() ==> link_intact(#[trigger] links[i], w)
}

pub open spec fn links_present(links: Seq<LinkView>, w: World) -> bool {
    forall|i: int| 0 <= i < links.len() ==> link_present(#[trigger] links[i], w)
}

proof fn lemma_services_disabled(
    services: Seq<ServiceView>,
    record: RecordView,
    p: PathsView,
    s: RunView,
    w: World,
    before: World,
    fault: int,
    failure: FailureView,
)
    requires
        on_the_way(s, w, before),
        s.steps == scripts::all_release_steps(services) + (scripts::all_uninstall_steps(
            record.profiles,
        ) + (scripts::all_retire_steps(record.modules, s.stamp) + scripts::forget_steps(
            record,
            p,
        ))),
        services_ready(services),
    ensures
        all_or_nothing(
            run(s.settled(), w, fault, failure),
            before,
            modules_disabled(
                record.modules,
                profiles_disabled(record.profiles, services_disabled(services, w)),
            ).without(p.record_path(record.key)),
        ),
        ({
            &&& fault < 0
            &&& record.modules.len() == 0
            &&& w.has(p.record_path(record.key))
            &&& overrides_present(services, w)
            &&& services_apart(services)
            &&& forall|i: int|
                0 <= i < services.len() ==> place(#[trigger] services[i].override_path) != place(
                    p.record_path(record.key),
                )
        }) ==> run(s.settled(), w, fault, failure).0.phase is Done,
    decreases services.len(),
{
    let own = p.record_path(record.key);
    let end = scripts::all_uninstall_steps(record.profiles) + (scripts::all_retire_steps(
        record.modules,
        s.stamp,
    ) + scripts::forget_steps(record, p));
    if services.len() == 0 {
        assert(s.steps =~= end);
        lemma_profiles_disabled(record.profiles, record, p, s, w, before, fault, failure);
    } else {
        let others = services.drop_first();
        let after = w.without(services[0].override_path);
        let tail = scripts::all_release_steps(others) + end;
        assert(s.steps =~= scripts::release_steps(services[0]) + tail);
        assert(paths::parent(services[0].override_path) is Some);
        assert forall|i: int| 0 <= i < others.len() implies {
            &&& paths::parent(#[trigger] others[i].override_path) is Some
            &&& others[i] == services[i + 1]
        } by {
            assert(others[i] == services[i + 1]);
            assert(paths::parent(services[i + 1].override_path) is Some);
        }
        if overrides_present(services, w) && services_apart(services) {
            assert(override_present(services[0], w));
            assert forall|i: int| 0 <= i < others.len() implies override_present(
                #[trigger] others[i],
                after,
            ) by {
                assert(override_present(services[i + 1], w));
                assert(place(services[0].override_path) != place(services[i + 1].override_path));
            }
            assert forall|i: int, j: int| 0 <= i < j < others.len() implies place(
                #[trigger] others[i].override_path,
            ) != place(#[trigger] others[j].override_path) by {
                assert(others[i] == services[i + 1] && others[j] == services[j + 1]);
            }
        }
        if let Some((later, rest)) = lemma_service_disabled(
            services[0],
            s,
            tail,
            w,
            before,
            fault,
            failure,
        ) {
            lemma_services_disabled(others, record, p, later, after, before, rest, failure);
            if forall|i: int|
                0 <= i < services.len() ==> place(#[trigger] services[i].override_path) != place(
                    own,
                ) {
                assert(place(services[0].override_path) != place(own));
                assert forall|i: int| 0 <= i < others.len() implies place(
                    #[trigger] others[i].override_path,
                ) != place(own) by {
                    assert(place(services[i + 1].override_path) != place(own));
                }
            }
        }
    }
}

/// Taking a link back leaves every place that is apart from it as it was.
proof fn lemma_unlink_frame(link: LinkView, path: Text, w: World)
    requires
        stands_apart(link, path),
    ensures
        link_disabled(link, w).has(path) == w.has(path),
        link_disabled(link, w).files[place(path)] == w.files[place(path)],
{
}

/// What has to hold for everything to be undone smoothly.
pub open spec fn undoable(
    links: Seq<LinkView>,
    services: Seq<ServiceView>,
    own: Text,
    w: World,
) -> bool {
    &&& links_present(links, w)
    &&& overrides_present(services, w)
    &&& services_apart(services)
    &&& links_and_services_apart(links, services)
    &&& w.has(own)
    &&& forall|i: int| 0 <= i < links.len() ==> stands_apart(#[trigger] links[i], own)
    &&& forall|i: int|
        0 <= i < services.len() ==> place(#[trigger] services[i].override_path) != place(own)
}

proof fn lemma_links_disabled(
    links: Seq<LinkView>,
    record: RecordView,
    p: PathsView,
    s: RunView,
    w: World,
    before: World,
    fault: int,
    failure: FailureView,
)
    requires
        on_the_way(s, w, before),
        s.steps == scripts::all_unlink_steps(links) + (scripts::all_release_steps(record.services)
            + (scripts::all_uninstall_steps(record.profiles) + (scripts::all_retire_steps(
            record.modules,
            s.stamp,
        ) + scripts::forget_steps(record, p)))),
        links_apart(links),
        links_intact(links, w),
        services_ready(record.services),
    ensures
        all_or_nothing(
            run(s.settled(), w, fault, failure),
            before,
            modules_disabled(
                record.modules,
                profiles_disabled(
                    record.profiles,
                    services_disabled(record.services, links_disabled(links, w)),
                ),
            ).without(p.record_path(record.key)),
        ),
        fault < 0 && record.modules.len() == 0 && undoable(
            links,
            record.services,
            p.record_path(record.key),
            w,
        ) ==> run(s.settled(), w, fault, failure).0.phase is Done,
    decreases links.len(),
{
    let own = p.record_path(record.key);
    let services = record.services;
    let end = scripts::all_release_steps(services) + (scripts::all_uninstall_steps(record.profiles)
        + (scripts::all_retire_steps(record.modules, s.stamp) + scripts::forget_steps(record, p)));
    if links.len() == 0 {
        assert(s.steps =~= end);
        lemma_services_disabled(services, record, p, s, w, before, fault, failure);
    } else {
        let link = links[0];
        let others = links.drop_first();
        let after = link_disabled(link, w);
        let tail = scripts::all_unlink_steps(others) + end;
        assert(s.steps =~= scripts::unlink_steps(link) + tail);
        assert(whole(links[0]) && link_intact(links[0], w));
        assert forall|i: int| 0 <= i < others.len() implies {
            &&& whole(#[trigger] others[i])
            &&& link_intact(others[i], after)
            &&& link_present(others[i], w) ==> link_present(others[i], after)
        } by {
            assert(others[i] == links[i + 1]);
            assert(apart(links[0], links[i + 1]));
            assert(link_intact(links[i + 1], w));
            lemma_unlink_frame(link, others[i].link, w);
            if let PreviousView::BackedUp { backup } = others[i].previous {
                lemma_unlink_frame(link, backup, w);
            }
        }
        assert forall|i: int, j: int| 0 <= i < j < others.len() implies apart(
            #[trigger] others[i],
            #[trigger] others[j],
        ) by {
            assert(others[i] == links[i + 1] && others[j] == links[j + 1]);
        }
        if undoable(links, services, own, w) {
            assert(link_present(links[0], w));
            assert(stands_apart(links[0], own));
            lemma_unlink_frame(link, own, w);
            assert forall|i: int| 0 <= i < others.len() implies {
                &&& link_present(#[trigger] others[i], after)
                &&& stands_apart(others[i], own)
            } by {
                assert(others[i] == links[i + 1]);
                assert(link_present(links[i + 1], w));
                assert(stands_apart(links[i + 1], own));
            }
            assert forall|i: int| 0 <= i < services.len() implies override_present(
                #[trigger] services[i],
                after,
            ) by {
                assert(override_present(services[i], w));
                assert(stands_apart(links[0], services[i].override_path));
                lemma_unlink_frame(link, services[i].override_path, w);
            }
            assert forall|i: int, j: int|
                0 <= i < others.len() && 0 <= j < services.len() implies stands_apart(
                #[trigger] others[i],
                #[trigger] services[j].override_path,
            ) by {
                assert(others[i] == links[i + 1]);
            }
        }
        if let Some((later, rest)) = lemma_link_disabled(link, s, tail, w, before, fault, failure) {
            lemma_links_disabled(others, record, p, later, after, before, rest, failure);
        }
    }
}

pub(crate) proof fn lemma_disabling(
    record: RecordView,
    p: PathsView,
    stamp: Text,
    w: World,
    fault: int,
    failure: FailureView,
)
    requires
        links_apart(record.links),
        links_intact(record.links, w),
        services_ready(record.services),
    ensures
        ({
            let start = transaction::begun(
                Direction::Deactivation,
                scripts::disable_steps(record, p, stamp),
                stamp,
            ).settled();
            &&& all_or_nothing(run(start, w, fault, failure), w, disabled(record, p, w))
            &&& fault < 0 && record.modules.len() == 0 && undoable(
                record.links,
                record.services,
                p.record_path(record.key),
                w,
            ) ==> run(start, w, fault, failure).0.phase is Done
        }),
{
    let s = transaction::begun(
        Direction::Deactivation,
        scripts::disable_steps(record, p, stamp),
        stamp,
    );
    assert(on_the_way(s, w, w));
    lemma_links_disabled(record.links, record, p, s, w, w, fault, failure);
}

// ---- Undoing what was done

proof fn lemma_unlink_beside(links: Seq<LinkView>, path: Text, node: Node, w: World)
    requires
        forall|i: int|
            0 <= i < links.len() ==> whole(#[trigger] links[i]) && stands_apart(links[i], path),
    ensures
        links_disabled(links, w.put(path, node)) == links_disabled(links, w).put(path, node),
    decreases links.len(),
{
    if links.len() > 0 {
        let link = links[0];
        let others = links.drop_first();
        assert(whole(links[0]) && stands_apart(links[0], path));
        assert(link_disabled(link, w.put(path, node)).files =~= link_disabled(link, w).put(
            path,
            node,
        ).files);
        assert forall|i: int| 0 <= i < others.len() implies whole(#[trigger] others[i])
            && stands_apart(others[i], path) by {
            assert(others[i] == links[i + 1]);
        }
        lemma_unlink_beside(others, path, node, link_disabled(link, w));
    }
}

proof fn lemma_unlink_beside_services(
    links: Seq<LinkView>,
    services: Seq<ServiceView>,
    w: World,
)
    requires
        forall|i: int| 0 <= i < links.len() ==> whole(#[trigger] links[i]),
        links_and_services_apart(links, services),
    ensures
        links_disabled(links, services_enabled(services, w)) == services_enabled(
            services,
            links_disabled(links, w),
        ),
    decreases services.len(),
{
    if services.len() > 0 {
        let service = services[0];
        let others = services.drop_first();
        let node = Node::File { text: scripts::override_text(service.exec_start) };
        assert forall|i: int| 0 <= i < links.len() implies whole(#[trigger] links[i])
            && stands_apart(links[i], service.override_path) by {
            assert(stands_apart(links[i], services[0].override_path));
        }
        assert forall|i: int, j: int|
            0 <= i < links.len() && 0 <= j < others.len() implies stands_apart(
            #[trigger] links[i],
            #[trigger] others[j].override_path,
        ) by {
            assert(others[j] == services[j + 1]);
            assert(stands_apart(links[i], services[j + 1].override_path));
        }
        lemma_unlink_beside_services(links, others, service_enabled(service, w));
        lemma_unlink_beside(links, service.override_path, node, w);
    }
}

proof fn lemma_apart_symmetric(a: LinkView, b: LinkView)
    requires
        apart(a, b),
    ensures
        apart(b, a),
{
}

/// Taking one link back and making others may change places.
proof fn lemma_unlink_beside_links(link: LinkView, links: Seq<LinkView>, w: World)
    requires
        whole(link),
        forall|i: int| 0 <= i < links.len() ==> apart(link, #[trigger] links[i]),
    ensures
        link_disabled(link, links_enabled(links, w)) == links_enabled(
            links,
            link_disabled(link, w),
        ),
    decreases links.len(),
{
    if links.len() > 0 {
        let first = links[0];
        let others = links.drop_first();
        assert(apart(link, links[0]));
        assert(link_disabled(link, link_enabled(first, w)).files =~= link_enabled(
            first,
            link_disabled(link, w),
        ).files);
        assert forall|i: int| 0 <= i < others.len() implies apart(link, #[trigger] others[i]) by {
            assert(others[i] == links[i + 1]);
        }
        lemma_unlink_beside_links(link, others, link_enabled(first, w));
    }
}

proof fn lemma_links_undone(links: Seq<LinkView>, w: World)
    requires
        links_apart(links),
        links_ready(links, w),
    ensures
        links_disabled(links, links_enabled(links, w)) == w,
    decreases links.len(),
{
    if links.len() > 0 {
        let link = links[0];
        let others = links.drop_first();
        let made = link_enabled(link, w);
        assert(whole(links[0]) && link_ready(links[0], w));
        assert forall|i: int| 0 <= i < others.len() implies {
            &&& apart(link, #[trigger] others[i])
            &&& whole(others[i])
            &&& link_ready(others[i], w)
        } by {
            assert(others[i] == links[i + 1]);
            assert(apart(links[0], links[i + 1]));
            assert(whole(links[i + 1]) && link_ready(links[i + 1], w));
        }
        assert forall|i: int, j: int| 0 <= i < j < others.len() implies apart(
            #[trigger] others[i],
            #[trigger] others[j],
        ) by {
            assert(others[i] == links[i + 1] && others[j] == links[j + 1]);
        }
        lemma_unlink_beside_links(link, others, made);
        assert(link_disabled(link, made).files =~= w.files);
        lemma_links_undone(others, w);
    }
}

proof fn lemma_release_beside(services: Seq<ServiceView>, path: Text, node: Node, w: World)
    requires
        forall|i: int|
            0 <= i < services.len() ==> place(#[trigger] services[i].override_path) != place(path),
    ensures
        services_disabled(services, w.put(path, node)) == services_disabled(services, w).put(
            path,
            node,
        ),
    decreases services.len(),
{
    if services.len() > 0 {
        let first = services[0].override_path;
        let others = services.drop_first();
        assert(place(services[0].override_path) != place(path));
        assert(w.put(path, node).without(first).files =~= w.without(first).put(path, node).files);
        assert forall|i: int| 0 <= i < others.len() implies place(
            #[trigger] others[i].override_path,
        ) != place(path) by {
            assert(others[i] == services[i + 1]);
        }
        lemma_release_beside(others, path, node, w.without(first));
    }
}

proof fn lemma_override_beside(services: Seq<ServiceView>, path: Text, w: World)
    requires
        forall|i: int|
            0 <= i < services.len() ==> place(#[trigger] services[i].override_path) != place(path),
    ensures
        services_enabled(services, w).without(path) == services_enabled(services, w.without(path)),
    decreases services.len(),
{
    if services.len() > 0 {
        let others = services.drop_first();
        assert(place(services[0].override_path) != place(path));
        assert(service_enabled(services[0], w).without(path).files =~= service_enabled(
            services[0],
            w.without(path),
        ).files);
        assert forall|i: int| 0 <= i < others.len() implies place(
            #[trigger] others[i].override_path,
        ) != place(path) by {
            assert(others[i] == services[i + 1]);
        }
        lemma_override_beside(others, path, service_enabled(services[0], w));
    }
}

proof fn lemma_services_undone(services: Seq<ServiceView>, w: World)
    requires
        services_apart(services),
        overrides_free(services, w),
    ensures
        services_disabled(services, services_enabled(services, w)) == w,
    decreases services.len(),
{
    if services.len() > 0 {
        let first = services[0].override_path;
        let others = services.drop_first();
        let made = service_enabled(services[0], w);
        assert(!w.has(services[0].override_path));
        assert forall|i: int| 0 <= i < others.len() implies {
            &&& place(#[trigger] others[i].override_path) != place(first)
            &&& !w.has(others[i].override_path)
        } by {
            assert(others[i] == services[i + 1]);
            assert(place(services[0].override_path) != place(services[i + 1].override_path));
            assert(!w.has(services[i + 1].override_path));
        }
        assert forall|i: int, j: int| 0 <= i < j < others.len() implies place(
            #[trigger] others[i].override_path,
        ) != place(#[trigger] others[j].override_path) by {
            assert(others[i] == services[i + 1] && others[j] == services[j + 1]);
        }
        lemma_override_beside(others, first, made);
        assert(made.without(first).files =~= w.files);
        lemma_services_undone(others, w);
    }
}

/// What enabling did, disabling takes back.
proof fn lemma_undone(record: RecordView, p: PathsView, contents: Text, w: World)
    requires
        record.profiles.len() == 0,
        record.modules.len() == 0,
        laid_apart(record, p),
        links_ready(record.links, w),
        overrides_free(record.services, w),
        !w.has(p.record_path(record.key)),
    ensures
        disabled(record, p, enabled(record, p, contents, w)) == w,
{
    let own = p.record_path(record.key);
    let node = Node::File { text: contents };
    let linked = links_enabled(record.links, w);
    let served = services_enabled(record.services, linked);
    lemma_unlink_beside(record.links, own, node, served);
    lemma_unlink_beside_services(record.links, record.services, linked);
    lemma_links_undone(record.links, w);
    lemma_release_beside(record.services, own, node, services_enabled(record.services, w));
    lemma_services_undone(record.services, w);
    assert(w.put(own, node).without(own).files =~= w.files);
}

proof fn lemma_links_frame(links: Seq<LinkView>, path: Text, w: World)
    requires
        forall|i: int| 0 <= i < links.len() ==> stands_apart(#[trigger] links[i], path),
    ensures
        links_enabled(links, w).has(path) == w.has(path),
        links_enabled(links, w).files[place(path)] == w.files[place(path)],
    decreases links.len(),
{
    if links.len() > 0 {
        let others = links.drop_first();
        assert(stands_apart(links[0], path));
        lemma_link_frame(links[0], path, w);
        assert forall|i: int| 0 <= i < others.len() implies stands_apart(
            #[trigger] others[i],
            path,
        ) by {
            assert(others[i] == links[i + 1]);
        }
        lemma_links_frame(others, path, link_enabled(links[0], w));
    }
}

pub(crate) proof fn lemma_services_frame(services: Seq<ServiceView>, path: Text, w: World)
    requires
        forall|i: int|
            0 <= i < services.len() ==> place(#[trigger] services[i].override_path) != place(path),
    ensures
        services_enabled(services, w).has(path) == w.has(path),
        services_enabled(services, w).files[place(path)] == w.files[place(path)],
    decreases services.len(),
{
    if services.len() > 0 {
        let others = services.drop_first();
        assert(place(services[0].override_path) != place(path));
        assert forall|i: int| 0 <= i < others.len() implies place(
            #[trigger] others[i].override_path,
        ) != place(path) by {
            assert(others[i] == services[i + 1]);
        }
        lemma_services_frame(others, path, service_enabled(services[0], w));
    }
}

proof fn lemma_links_made(links: Seq<LinkView>, w: World)
    requires
        links_apart(links),
        links_ready(links, w),
    ensures
        links_present(links, links_enabled(links, w)),
        links_intact(links, links_enabled(links, w)),
    decreases links.len(),
{
    if links.len() > 0 {
        let link = links[0];
        let others = links.drop_first();
        let made = link_enabled(link, w);
        let all = links_enabled(links, w);
        assert(whole(links[0]) && link_ready(links[0], w));
        assert forall|i: int| 0 <= i < others.len() implies {
            &&& whole(#[trigger] others[i])
            &&& link_ready(others[i], made)
            &&& apart(others[i], link)
        } by {
            assert(others[i] == links[i + 1]);
            assert(apart(links[0], links[i + 1]));
            assert(whole(links[i + 1]) && link_ready(links[i + 1], w));
            lemma_apart_symmetric(link, others[i]);
            lemma_link_frame(link, others[i].link, w);
            if let PreviousView::BackedUp { backup } = others[i].previous {
                lemma_link_frame(link, backup, w);
            }
        }
        assert forall|i: int, j: int| 0 <= i < j < others.len() implies apart(
            #[trigger] others[i],
            #[trigger] others[j],
        ) by {
            assert(others[i] == links[i + 1] && others[j] == links[j + 1]);
        }
        lemma_links_made(others, made);
        lemma_links_frame(others, link.link, made);
        if let PreviousView::BackedUp { backup } = link.previous {
            lemma_links_frame(others, backup, made);
        }
        assert forall|i: int| 0 <= i < links.len() implies {
            &&& link_present(#[trigger] links[i], all)
            &&& link_intact(links[i], all)
        } by {
            if i > 0 {
                assert(links[i] == others[i - 1]);
                assert(link_present(others[i - 1], all) && link_intact(others[i - 1], all));
            }
        }
    }
}

proof fn lemma_services_made(services: Seq<ServiceView>, w: World)
    requires
        services_apart(services),
    ensures
        overrides_present(services, services_enabled(services, w)),
    decreases services.len(),
{
    if services.len() > 0 {
        let others = services.drop_first();
        let made = service_enabled(services[0], w);
        let all = services_enabled(services, w);
        assert forall|i: int| 0 <= i < others.len() implies place(
            #[trigger] others[i].override_path,
        ) != place(services[0].override_path) by {
            assert(others[i] == services[i + 1]);
            assert(place(services[0].override_path) != place(services[i + 1].override_path));
        }
        assert forall|i: int, j: int| 0 <= i < j < others.len() implies place(
            #[trigger] others[i].override_path,
        ) != place(#[trigger] others[j].override_path) by {
            assert(others[i] == services[i + 1] && others[j] == services[j + 1]);
        }
        lemma_services_made(others, made);
        lemma_services_frame(others, services[0].override_path, made);
        assert forall|i: int| 0 <= i < services.len() implies override_present(
            #[trigger] services[i],
            all,
        ) by {
            if i > 0 {
                assert(services[i] == others[i - 1]);
                assert(override_present(others[i - 1], all));
            }
        }
    }
}

/// What enabling made can be undone.
pub(crate) proof fn lemma_enabled_is_undoable(record: RecordView, p: PathsView, contents: Text, w: World)
    requires
        laid_apart(record, p),
        links_ready(record.links, w),
    ensures
        links_intact(record.links, enabled(record, p, contents, w)),
        undoable(
            record.links,
            record.services,
            p.record_path(record.key),
            enabled(record, p, contents, w),
        ),
{
    let own = p.record_path(record.key);
    let links = record.links;
    let services = record.services;
    let linked = links_enabled(links, w);
    let served = services_enabled(services, linked);
    let all = enabled(record, p, contents, w);
    lemma_links_made(links, w);
    lemma_services_made(services, linked);
    assert forall|i: int| 0 <= i < links.len() implies {
        &&& link_present(#[trigger] links[i], all)
        &&& link_intact(links[i], all)
    } by {
        assert(link_present(links[i], linked) && link_intact(links[i], linked));
        assert(stands_apart(links[i], own));
        assert forall|j: int| 0 <= j < services.len() implies stands_apart(
            links[i],
            #[trigger] services[j].override_path,
        ) by {}
        assert forall|j: int| 0 <= j < services.len() implies place(
            #[trigger] services[j].override_path,
        ) != place(links[i].link) by {
            assert(stands_apart(links[i], services[j].override_path));
        }
        lemma_services_frame(services, links[i].link, linked);
        if let PreviousView::BackedUp { backup } = links[i].previous {
            assert forall|j: int| 0 <= j < services.len() implies place(
                #[trigger] services[j].override_path,
            ) != place(backup) by {
                assert(stands_apart(links[i], services[j].override_path));
            }
            lemma_services_frame(services, backup, linked);
        }
    }
    assert forall|i: int| 0 <= i < services.len() implies override_present(
        #[trigger] services[i],
        all,
    ) by {
        assert(override_present(services[i], served));
        assert(place(services[i].override_path) != place(own));
    }
}

// ---- Laws

/// Whether a snapshot tells what stands at a path of a machine.
pub open spec fn agrees_at(snapshot: Snapshot, w: World, path: Text) -> bool {
    &&& snapshot.has_entry(path) is Ok ==> snapshot.has_entry(path)->Ok_0 == w.has(path)
    &&& snapshot.at(path).link is Target ==> w.has(path) && w.files[place(path)] == (Node::Link {
        target: place(snapshot.at(path).link->path),
    })
}

/// Whether a snapshot tells what stands where a record's links, backups and overrides
/// belong.
pub open spec fn agrees(record: RecordView, snapshot: Snapshot, w: World) -> bool {
    &&& forall|i: int| 0 <= i < record.links.len() ==> agrees_on_link(
        #[trigger] record.links[i],
        snapshot,
        w,
    )
    &&& forall|i: int|
        0 <= i < record.services.len() ==> agrees_at(
            snapshot,
            w,
            (#[trigger] record.services[i]).override_path,
        )
}

pub open spec fn agrees_on_link(link: LinkView, snapshot: Snapshot, w: World) -> bool {
    &&& agrees_at(snapshot, w, link.link)
    &&& match link.previous {
        PreviousView::Absent => true,
        PreviousView::BackedUp { backup } => agrees_at(snapshot, w, backup),
    }
}

pub(crate) proof fn lemma_no_refusal<A>(s: Seq<A>, f: spec_fn(A) -> Option<Text>, i: int)
    requires
        text::first_refusal(s, f) is None,
        0 <= i < s.len(),
    ensures
        f(s[i]) is None,
    decreases s.len(),
{
    if i > 0 {
        lemma_no_refusal(s.drop_first(), f, i - 1);
        assert(s.drop_first()[i - 1] == s[i]);
    }
}

pub(crate) proof fn lemma_enable_preflight(record: RecordView, p: PathsView, snapshot: Snapshot, w: World)
    requires
        preflight::enable_refusal(record, p, snapshot) is None,
        agrees(record, snapshot, w),
    ensures
        backups_free(record.links, w),
        overrides_free(record.services, w),
        forall|i: int|
            #![trigger record.links[i]]
            0 <= i < record.links.len() && paths::parent(record.links[i].link) is Some
                ==> link_ready(record.links[i], w),
{
    let on_link = |link: LinkView| preflight::link_refusal(link, snapshot);
    let on_service = |service: ServiceView| preflight::service_refusal(service, snapshot);
    assert forall|i: int| 0 <= i < record.links.len() implies {
        &&& backup_free(#[trigger] record.links[i], w)
        &&& paths::parent(record.links[i].link) is Some ==> link_ready(record.links[i], w)
    } by {
        lemma_no_refusal(record.links, on_link, i);
        let link = record.links[i];
        assert(preflight::place_refusal(link.link, link.previous, snapshot) is None);
        assert(snapshot.has_entry(link.link) is Ok);
        if let PreviousView::BackedUp { backup } = link.previous {
            assert(snapshot.has_entry(backup) is Ok);
        }
    }
    assert forall|i: int| 0 <= i < record.services.len() implies !w.has(
        #[trigger] record.services[i].override_path,
    ) by {
        lemma_no_refusal(record.services, on_service, i);
        let path = record.services[i].override_path;
        assert(preflight::service_refusal(record.services[i], snapshot) is None);
        assert(snapshot.has_entry(path) is Ok);
    }
}

proof fn lemma_disable_preflight(record: RecordView, p: PathsView, snapshot: Snapshot, w: World)
    requires
        preflight::disable_refusal(record, p, snapshot) is None,
        agrees(record, snapshot, w),
    ensures
        links_intact(record.links, w),
{
    let on_link = |link: LinkView| preflight::unlink_refusal(link, snapshot);
    assert forall|i: int| 0 <= i < record.links.len() implies link_intact(
        #[trigger] record.links[i],
        w,
    ) by {
        lemma_no_refusal(record.links, on_link, i);
        let link = record.links[i];
        assert(preflight::changed_link_refusal(link, snapshot) is None);
        assert(snapshot.at(link.link).link is Target);
    }
}

/// An activation of links and services is made as a whole or not at all: whichever of
/// its actions fails, once everything is taken back the machine is as it was.
pub proof fn a_failed_activation_leaves_no_trace(
    record: RecordView,
    p: PathsView,
    snapshot: Snapshot,
    contents: Text,
    stamp: Text,
    w: World,
    fault: int,
    failure: FailureView,
)
    requires
        laid_apart(record, p),
        agrees(record, snapshot, w),
        scripts::enabling(record, p, snapshot, contents, stamp) is Ok,
    ensures
        all_or_nothing(
            run(
                scripts::enabling(record, p, snapshot, contents, stamp)->Ok_0,
                w,
                fault,
                failure,
            ),
            w,
            enabled(record, p, contents, w),
        ),
{
    lemma_enable_preflight(record, p, snapshot, w);
    lemma_enabling(record, p, contents, stamp, w, fault, failure);
}

/// Undoing an activation, too, is done as a whole or not at all.
pub proof fn a_failed_deactivation_leaves_no_trace(
    record: RecordView,
    p: PathsView,
    snapshot: Snapshot,
    stamp: Text,
    w: World,
    fault: int,
    failure: FailureView,
)
    requires
        links_apart(record.links),
        services_ready(record.services),
        agrees(record, snapshot, w),
        scripts::disabling(record, p, snapshot, stamp) is Ok,
    ensures
        all_or_nothing(
            run(scripts::disabling(record, p, snapshot, stamp)->Ok_0, w, fault, failure),
            w,
            disabled(record, p, w),
        ),
{
    lemma_disable_preflight(record, p, snapshot, w);
    lemma_disabling(record, p, stamp, w, fault, failure);
}

/// Enabling and then disabling gives back the machine as it was: every link is gone,
/// every entry that a link displaced is in its place again, and every override and the
/// record are removed.
pub proof fn deactivation_undoes_activation(
    record: RecordView,
    p: PathsView,
    snapshot: Snapshot,
    later: Snapshot,
    contents: Text,
    stamp: Text,
    later_stamp: Text,
    w: World,
    failure: FailureView,
)
    requires
        record.profiles.len() == 0,
        record.modules.len() == 0,
        laid_apart(record, p),
        forall|i: int|
            0 <= i < record.links.len() ==> paths::parent(#[trigger] record.links[i].link) is Some,
        services_ready(record.services),
        agrees(record, snapshot, w),
        !w.has(p.record_path(record.key)),
        scripts::enabling(record, p, snapshot, contents, stamp) is Ok,
        scripts::disabling(record, p, later, later_stamp) is Ok,
    ensures
        ({
            let made = run(
                scripts::enabling(record, p, snapshot, contents, stamp)->Ok_0,
                w,
                -1,
                failure,
            );
            let undone = run(
                scripts::disabling(record, p, later, later_stamp)->Ok_0,
                made.1,
                -1,
                failure,
            );
            &&& made.0.phase is Done
            &&& made.1 == enabled(record, p, contents, w)
            &&& undone.0.phase is Done
            &&& undone.1 == w
        }),
{
    lemma_enable_preflight(record, p, snapshot, w);
    assert forall|i: int| 0 <= i < record.links.len() implies link_ready(
        #[trigger] record.links[i],
        w,
    ) by {
        assert(paths::parent(record.links[i].link) is Some);
    }
    lemma_enabling(record, p, contents, stamp, w, -1, failure);
    let active = enabled(record, p, contents, w);
    lemma_enabled_is_undoable(record, p, contents, w);
    lemma_disabling(record, p, later_stamp, active, -1, failure);
    lemma_undone(record, p, contents, w);
}

} // verus!
