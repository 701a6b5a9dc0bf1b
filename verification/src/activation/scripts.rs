//! The steps that make an activation, and those that undo it.
use vstd::prelude::*;

use crate::activation::keys::{ActivationPaths, PathsView};
use crate::activation::preflight::{self, preflight_disable_record, preflight_enable_record};
use crate::activation::records::{
    ActivationRecord, LinkRecord, LinkView, ModuleRecord, ModuleView, PreviousLink, PreviousView,
    ProfileRecord, ProfileView, RecordView, ServiceRecord, ServiceView,
};
use crate::activation::transaction::{
    self, add_profile_step, beside, impossible_step, inspect_step, make_dirs_step, make_link_step,
    push_step, push_steps, read_text_step, reload_step, remove_dir_step, remove_file_step,
    rename_step, restart_step, with_note, with_when, write_file_step, write_text_steps, Action,
    ActionView, Direction, Note, NoteView, RunView, Step, StepView, Transaction, Undo, UndoView,
    When,
};
use crate::copying::Copied;
use crate::nix::push_escaped;
use crate::number::{self, u64_text};
use crate::paths::{self, join, parent_of};
use crate::snapshot::Snapshot;
use crate::text::{self, cat2, cat3, cat4, chars_of, fail, Error, Text};

verus! {

/// What tells the files of one run from those of another: process and time.
pub open spec fn stamp_of(process: u32, now: u64) -> Text {
    number::decimal(process as nat) + "."@ + number::decimal(now as nat)
}

pub fn stamp(process: u32, now: u64) -> (r: String)
    ensures
        r@ == stamp_of(process, now),
{
    cat3(u64_text(process as u64).as_str(), ".", u64_text(now).as_str())
}

// ---- Texts that are written

/// The override that makes a service run the fork.
pub open spec fn override_text(exec_start: Text) -> Text {
    "[Service]\nExecStart=\nExecStart="@ + exec_start + "\n"@
}

/// A path as it stands in a Nix expression. Interpolations are not escaped.
pub open spec fn plain_escaped(s: Text) -> Text
    decreases s.len(),
{
    if s.len() == 0 {
        Seq::empty()
    } else {
        crate::nix::escaped_char(s[0], false) + plain_escaped(s.drop_first())
    }
}

pub open spec fn path_literal(path: Text) -> Text {
    "(/. + "@ + (seq!['"'] + plain_escaped(path) + seq!['"']) + ")"@
}

fn nix_string(value: &str) -> (r: String)
    ensures
        r@ == seq!['"'] + plain_escaped(value@) + seq!['"'],
{
    let chars = chars_of(value);
    let mut out = String::new();
    out.push('"');
    let mut i: usize = 0;
    assert(value@.skip(0) =~= value@);
    assert(out@ =~= seq!['"']);
    while i < chars.len()
        invariant
            i <= chars@.len(),
            chars@ == value@,
            out@ + plain_escaped(value@.skip(i as int)) == seq!['"'] + plain_escaped(value@),
        decreases chars@.len() - i,
    {
        let ghost rest = value@.skip(i as int);
        let ghost before = out@;
        assert(rest[0] == chars@[i as int]);
        assert(rest.drop_first() =~= value@.skip(i + 1));
        push_escaped(&mut out, chars[i], false);
        assert(out@ + plain_escaped(value@.skip(i + 1)) =~= before + plain_escaped(rest));
        i += 1;
    }
    assert(value@.skip(chars@.len() as int) =~= Seq::empty());
    assert(out@ + Seq::empty() =~= out@);
    out.push('"');
    assert(out@ =~= seq!['"'] + plain_escaped(value@) + seq!['"']);
    out
}

/// A path literal reads back as the path, unless the path holds an interpolation.
pub proof fn path_literals_read_back(path: Text)
    requires
        !text::occurs(path, seq!['$', '{']),
    ensures
        crate::nix::read_back(plain_escaped(path)) == Some(path),
{
    lemma_plain_is_escaped(path);
    crate::nix::literals_read_back(path);
}

/// Between the quotes of a path literal no line break or tab stands as it is, every quote is
/// escaped, and the closing quote is not.
pub proof fn path_literals_end_at_their_last_quote(path: Text)
    ensures
        forall|i: int|
            0 <= i < plain_escaped(path).len() ==> {
                &&& (#[trigger] plain_escaped(path)[i]) != '\n'
                &&& plain_escaped(path)[i] != '\r'
                &&& plain_escaped(path)[i] != '\t'
                &&& plain_escaped(path)[i] == '"' ==> crate::nix::is_escaped_at(
                    plain_escaped(path),
                    i,
                )
            },
        !crate::nix::is_escaped_at(plain_escaped(path), plain_escaped(path).len() as int),
    decreases path.len(),
{
    if path.len() > 0 {
        let first = crate::nix::escaped_char(path[0], false);
        let rest = plain_escaped(path.drop_first());
        let whole = plain_escaped(path);
        path_literals_end_at_their_last_quote(path.drop_first());
        assert(whole == first + rest);
        assert forall|i: int| 0 <= i < whole.len() implies {
            &&& (#[trigger] whole[i]) != '\n'
            &&& whole[i] != '\r'
            &&& whole[i] != '\t'
            &&& whole[i] == '"' ==> crate::nix::is_escaped_at(whole, i)
        } by {
            if i >= first.len() {
                assert(whole[i] == rest[i - first.len()]);
                crate::nix::lemma_escapes_stay(first, rest, i - first.len());
            } else if i == 1 {
                assert(whole[0] == '\\');
                assert(crate::nix::backslashes_before(whole, 0) == 0);
                assert(crate::nix::backslashes_before(whole, 1) == 1);
            }
        }
        crate::nix::lemma_escapes_stay(first, rest, rest.len() as int);
    }
}

proof fn lemma_plain_tells_apart(a: Text, b: Text)
    requires
        plain_escaped(a) == plain_escaped(b),
    ensures
        a == b,
    decreases a.len(),
{
    if a.len() == 0 || b.len() == 0 {
        assert(a =~= b);
    } else {
        let first = crate::nix::escaped_char(a[0], false);
        let other = crate::nix::escaped_char(b[0], false);
        let whole = plain_escaped(a);
        assert(whole[0] == first[0] && whole[0] == other[0]);
        if first.len() == 2 {
            assert(whole[1] == first[1]);
        }
        if other.len() == 2 {
            assert(whole[1] == other[1]);
        }
        assert(a[0] == b[0]);
        let n = first.len() as int;
        assert(whole.skip(n) =~= plain_escaped(a.drop_first()));
        assert(whole.skip(n) =~= plain_escaped(b.drop_first()));
        lemma_plain_tells_apart(a.drop_first(), b.drop_first());
        assert(a =~= seq![a[0]] + a.drop_first());
        assert(b =~= seq![b[0]] + b.drop_first());
    }
}

/// Different paths have different literals.
pub proof fn path_literals_tell_paths_apart(a: Text, b: Text)
    ensures
        (path_literal(a) == path_literal(b)) == (a == b),
{
    if path_literal(a) == path_literal(b) {
        let n = "(/. + "@.len() as int + 1;
        let m = ")"@.len() as int + 1;
        assert(path_literal(a).subrange(n, path_literal(a).len() - m) =~= plain_escaped(a));
        assert(path_literal(b).subrange(n, path_literal(b).len() - m) =~= plain_escaped(b));
        lemma_plain_tells_apart(a, b);
    }
}

pub(crate) proof fn lemma_plain_is_escaped(path: Text)
    requires
        !text::occurs(path, seq!['$', '{']),
    ensures
        plain_escaped(path) == crate::nix::escaped(path),
    decreases path.len(),
{
    if path.len() > 0 {
        let part = seq!['$', '{'];
        let rest = path.drop_first();
        assert(!text::occurs(rest, part)) by {
            if text::occurs(rest, part) {
                let i = choose|i: int| text::occurs_at(rest, part, i);
                assert(path.subrange(i + 1, i + 1 + part.len()) =~= rest.subrange(
                    i,
                    i + part.len(),
                ));
                assert(text::occurs_at(path, part, i + 1));
            }
        }
        lemma_plain_is_escaped(rest);
        if path[0] == '$' && path.len() > 1 && path[1] == '{' {
            assert(path.subrange(0, 2) =~= part);
            assert(text::occurs_at(path, part, 0));
        }
    }
}

/// The module of an active fork.
pub open spec fn enabled_text(module: ModuleView) -> Text {
    "# forkpkg: enabled\n{ ... }:\n{\n  nixpkgs.overlays = [ (import "@ + path_literal(
        module.overlay,
    ) + ") ];\n}\n"@
}

pub fn enabled_module_text(module: &ModuleRecord) -> (r: String)
    ensures
        r@ == enabled_text(module.deep_view()),
{
    let overlay = cat3("(/. + ", nix_string(module.overlay.as_str()).as_str(), ")");
    cat3(
        "# forkpkg: enabled\n{ ... }:\n{\n  nixpkgs.overlays = [ (import ",
        overlay.as_str(),
        ") ];\n}\n",
    )
}

/// The module of a fork that is no longer active: it changes nothing.
pub open spec fn disabled_text(module: ModuleView) -> Text {
    "# forkpkg: disabled\n{ ... }:\n{\n}\n# Previous backend: "@ + module.backend + "\n"@
}

pub fn disabled_module_text(module: &ModuleRecord) -> (r: String)
    ensures
        r@ == disabled_text(module.deep_view()),
{
    cat3(
        "# forkpkg: disabled\n{ ... }:\n{\n}\n# Previous backend: ",
        module.backend.as_str(),
        "\n",
    )
}

// ---- Enabling

pub open spec fn noting(step: StepView, note: NoteView) -> StepView {
    StepView { note, ..step }
}

pub open spec fn place_link(link: LinkView) -> Seq<StepView> {
    match link.previous {
        PreviousView::Absent => seq![
            transaction::inspect(link.link),
            transaction::if_seen(
                transaction::impossible("refusing to replace newly-created "@ + link.link),
            ),
            noting(
                transaction::make_link(link.target, link.link),
                NoteView::Push { undo: UndoView::RemoveCreated { link: link.link } },
            ),
        ],
        PreviousView::BackedUp { backup } => seq![
            noting(
                transaction::rename(
                    link.link,
                    backup,
                    "failed to move existing "@ + link.link + " to "@ + backup,
                ),
                NoteView::Push { undo: UndoView::RestorePrevious { link: link.link, backup } },
            ),
            transaction::make_link(link.target, link.link),
        ],
    }
}

/// The steps that make one link.
pub open spec fn link_steps(link: LinkView) -> Seq<StepView> {
    match paths::parent(link.link) {
        None => seq![transaction::impossible("link has no parent: "@ + link.link)],
        Some(parent) => seq![transaction::make_dirs(parent, parent)] + place_link(link),
    }
}

fn steps_for_link(link: &LinkRecord) -> (r: Vec<Step>)
    ensures
        r.deep_view() == link_steps(link.deep_view()),
{
    let mut r: Vec<Step> = Vec::new();
    let parent = match parent_of(link.link.as_str()) {
        Some(parent) => parent,
        None => {
            push_step(&mut r, impossible_step(cat2("link has no parent: ", link.link.as_str())));
            assert(r.deep_view() =~= link_steps(link.deep_view()));
            return r;
        },
    };
    push_step(&mut r, make_dirs_step(parent.clone(), parent.as_str()));
    match &link.previous {
        PreviousLink::Absent => {
            push_step(&mut r, inspect_step(&link.link));
            let refuse = impossible_step(
                cat2("refusing to replace newly-created ", link.link.as_str()),
            );
            push_step(&mut r, with_when(refuse, When::IfSeen));
            let note = Note::Push { undo: Undo::RemoveCreated { link: link.link.clone() } };
            push_step(&mut r, with_note(make_link_step(&link.target, &link.link), note));
        },
        PreviousLink::BackedUp { backup } => {
            let context = cat4(
                "failed to move existing ",
                link.link.as_str(),
                " to ",
                backup.as_str(),
            );
            let note = Note::Push {
                undo: Undo::RestorePrevious { link: link.link.clone(), backup: backup.clone() },
            };
            push_step(&mut r, with_note(rename_step(&link.link, backup, context), note));
            push_step(&mut r, make_link_step(&link.target, &link.link));
        },
    }
    assert(r.deep_view() =~= link_steps(link.deep_view()));
    r
}

/// The steps that override one service.
pub open spec fn service_steps(service: ServiceView, stamp: Text) -> Seq<StepView> {
    match paths::parent(service.override_path) {
        None => seq![
            transaction::impossible(
                "systemd override path has no parent: "@ + service.override_path,
            ),
        ],
        Some(parent) => seq![
            transaction::make_dirs(parent, parent),
            noting(
                transaction::write_file(
                    service.override_path,
                    transaction::temporary_beside(parent, "forkpkg.conf"@, stamp),
                    override_text(service.exec_start),
                ),
                NoteView::Push {
                    undo: UndoView::RemoveCreatedServiceOverride {
                        service: service.service,
                        override_path: service.override_path,
                    },
                },
            ),
            transaction::reload(),
            transaction::restart(service.service),
        ],
    }
}

fn steps_for_service(service: &ServiceRecord, stamp: &str) -> (r: Vec<Step>)
    ensures
        r.deep_view() == service_steps(service.deep_view(), stamp@),
{
    let mut r: Vec<Step> = Vec::new();
    let parent = match parent_of(service.override_path.as_str()) {
        Some(parent) => parent,
        None => {
            push_step(
                &mut r,
                impossible_step(
                    cat2("systemd override path has no parent: ", service.override_path.as_str()),
                ),
            );
            assert(r.deep_view() =~= service_steps(service.deep_view(), stamp@));
            return r;
        },
    };
    push_step(&mut r, make_dirs_step(parent.clone(), parent.as_str()));
    let contents = cat3("[Service]\nExecStart=\nExecStart=", service.exec_start.as_str(), "\n");
    let temporary = beside(parent.as_str(), "forkpkg.conf", stamp);
    let note = Note::Push {
        undo: Undo::RemoveCreatedServiceOverride {
            service: service.service.clone(),
            override_path: service.override_path.clone(),
        },
    };
    push_step(
        &mut r,
        with_note(write_file_step(service.override_path.clone(), temporary, contents), note),
    );
    push_step(&mut r, reload_step());
    push_step(&mut r, restart_step(&service.service));
    assert(r.deep_view() =~= service_steps(service.deep_view(), stamp@));
    r
}

/// The steps that write a record, whose file is to hold `contents`.
pub open spec fn record_steps(key: Text, p: PathsView, contents: Text, stamp: Text) -> Seq<
    StepView,
> {
    seq![
        transaction::make_dirs(p.activation_dir(key), p.activation_dir(key)),
        transaction::write_file(
            p.record_path(key),
            transaction::temporary_beside(p.activation_dir(key), "activation.toml"@, stamp),
            contents,
        ),
    ]
}

fn steps_for_record(
    record: &ActivationRecord,
    paths: &ActivationPaths,
    contents: &str,
    stamp: &str,
) -> (r: Vec<Step>)
    ensures
        r.deep_view() == record_steps(
            record.deep_view().key,
            paths.deep_view(),
            contents@,
            stamp@,
        ),
{
    let mut r: Vec<Step> = Vec::new();
    let dir = paths.activation_dir(record.key.as_str());
    let temporary = beside(dir.as_str(), "activation.toml", stamp);
    push_step(&mut r, make_dirs_step(dir.clone(), dir.as_str()));
    push_step(
        &mut r,
        write_file_step(paths.record_path(record), temporary, contents.to_owned()),
    );
    assert(r.deep_view() =~= record_steps(
        record.deep_view().key,
        paths.deep_view(),
        contents@,
        stamp@,
    ));
    r
}

pub open spec fn all_link_steps(links: Seq<LinkView>) -> Seq<StepView> {
    transaction::spread(links, |link: LinkView| link_steps(link))
}

pub open spec fn all_service_steps(services: Seq<ServiceView>, stamp: Text) -> Seq<StepView> {
    transaction::spread(services, |service: ServiceView| service_steps(service, stamp))
}

/// The steps that make an activation of links and services.
pub open spec fn enable_steps(
    record: RecordView,
    p: PathsView,
    contents: Text,
    stamp: Text,
) -> Seq<StepView> {
    let dir = p.activation_dir(record.key);
    seq![transaction::make_dirs(paths::joined(dir, "backups"@), dir)] + (all_link_steps(
        record.links,
    ) + (all_service_steps(record.services, stamp) + record_steps(
        record.key,
        p,
        contents,
        stamp,
    )))
}

fn steps_for_links(links: &Vec<LinkRecord>) -> (r: Vec<Step>)
    ensures
        r.deep_view() == all_link_steps(links.deep_view()),
{
    let ghost all = links.deep_view();
    let ghost f = |link: LinkView| link_steps(link);
    let mut r: Vec<Step> = Vec::new();
    let mut i: usize = 0;
    assert(r.deep_view() =~= transaction::spread(all.take(0), f));
    while i < links.len()
        invariant
            i <= links@.len(),
            all == links.deep_view(),
            all.len() == links@.len(),
            f == (|link: LinkView| link_steps(link)),
            r.deep_view() == transaction::spread(all.take(i as int), f),
        decreases links@.len() - i,
    {
        push_steps(&mut r, steps_for_link(&links[i]));
        proof {
            transaction::lemma_spread_step(all, f, i as int);
            assert(all[i as int] == links@[i as int].deep_view());
        }
        i += 1;
    }
    assert(all.take(all.len() as int) =~= all);
    r
}

fn steps_for_services(services: &Vec<ServiceRecord>, stamp: &str) -> (r: Vec<Step>)
    ensures
        r.deep_view() == all_service_steps(services.deep_view(), stamp@),
{
    let ghost all = services.deep_view();
    let ghost f = |service: ServiceView| service_steps(service, stamp@);
    let mut r: Vec<Step> = Vec::new();
    let mut i: usize = 0;
    assert(r.deep_view() =~= transaction::spread(all.take(0), f));
    while i < services.len()
        invariant
            i <= services@.len(),
            all == services.deep_view(),
            all.len() == services@.len(),
            f == (|service: ServiceView| service_steps(service, stamp@)),
            r.deep_view() == transaction::spread(all.take(i as int), f),
        decreases services@.len() - i,
    {
        push_steps(&mut r, steps_for_service(&services[i], stamp));
        proof {
            transaction::lemma_spread_step(all, f, i as int);
            assert(all[i as int] == services@[i as int].deep_view());
        }
        i += 1;
    }
    assert(all.take(all.len() as int) =~= all);
    r
}

/// The transaction that makes an activation, or the reason why it must not begin.
pub open spec fn enabling(
    record: RecordView,
    p: PathsView,
    snapshot: Snapshot,
    contents: Text,
    stamp: Text,
) -> Result<RunView, Text> {
    match preflight::enable_refusal(record, p, snapshot) {
        Some(problem) => Err(problem),
        None => Ok(
            transaction::begun(
                Direction::Activation,
                enable_steps(record, p, contents, stamp),
                stamp,
            ).settled(),
        ),
    }
}

/// Begins an activation of links and services. `contents` is what the file of the
/// record is to hold.
pub fn apply_enable_record(
    record: &ActivationRecord,
    paths: &ActivationPaths,
    snapshot: &Snapshot,
    contents: &str,
    stamp: &str,
) -> (r: Result<Transaction, Error>)
    ensures
        text::outcome(r) == enabling(
            record.deep_view(),
            paths.deep_view(),
            *snapshot,
            contents@,
            stamp@,
        ),
{
    if let Err(error) = preflight_enable_record(record, paths, snapshot) {
        return Err(error);
    }
    let dir = paths.activation_dir(record.key.as_str());
    let mut steps: Vec<Step> = Vec::new();
    push_step(&mut steps, make_dirs_step(join(dir.as_str(), "backups"), dir.as_str()));
    push_steps(&mut steps, steps_for_links(&record.links));
    push_steps(&mut steps, steps_for_services(&record.services, stamp));
    push_steps(&mut steps, steps_for_record(record, paths, contents, stamp));
    assert(steps.deep_view() =~= enable_steps(
        record.deep_view(),
        paths.deep_view(),
        contents@,
        stamp@,
    ));
    Ok(Transaction::start(Direction::Activation, steps, stamp))
}

/// Begins to link a fork's executables as planned.
pub fn enable_path_shim(
    record: &ActivationRecord,
    paths: &ActivationPaths,
    snapshot: &Snapshot,
    contents: &str,
    stamp: &str,
) -> (r: Result<Transaction, Error>)
    ensures
        text::outcome(r) == enabling(
            record.deep_view(),
            paths.deep_view(),
            *snapshot,
            contents@,
            stamp@,
        ),
{
    apply_enable_record(record, paths, snapshot, contents, stamp)
}

/// Begins to run a user service from a fork as planned.
pub fn enable_systemd_user_service(
    record: &ActivationRecord,
    paths: &ActivationPaths,
    snapshot: &Snapshot,
    contents: &str,
    stamp: &str,
) -> (r: Result<Transaction, Error>)
    ensures
        text::outcome(r) == enabling(
            record.deep_view(),
            paths.deep_view(),
            *snapshot,
            contents@,
            stamp@,
        ),
{
    apply_enable_record(record, paths, snapshot, contents, stamp)
}

// ---- Enabling without taking back

/// Begins writing a record.
pub fn write_record(
    record: &ActivationRecord,
    paths: &ActivationPaths,
    contents: &str,
    stamp: &str,
) -> (r: Transaction)
    ensures
        r.deep_view() == transaction::begun(
            Direction::Activation,
            record_steps(record.deep_view().key, paths.deep_view(), contents@, stamp@),
            stamp@,
        ).settled(),
{
    Transaction::start(
        Direction::Activation,
        steps_for_record(record, paths, contents, stamp),
        stamp,
    )
}

/// The steps that install a profile entry and look for its element.
pub open spec fn install_steps(profile: ProfileView) -> Seq<StepView> {
    seq![
        transaction::add_profile(profile.profile, profile.store_path, profile.priority),
        transaction::firm(
            ActionView::ListProfile {
                profile: profile.profile,
                store_path: profile.store_path,
            },
            Seq::empty(),
        ),
    ]
}

/// The transaction that installs a profile activation; its record is written after.
pub open spec fn installing(record: RecordView, stamp: Text) -> Result<RunView, Text> {
    if record.profiles.len() == 0 {
        Err("nix-profile activation record has no profile entry"@)
    } else {
        Ok(
            transaction::begun(
                Direction::Activation,
                install_steps(record.profiles[0]),
                stamp,
            ).settled(),
        )
    }
}

/// Begins a profile activation: installs the store path and finds the element that
/// provides it.
pub fn enable_nix_profile(record: &ActivationRecord, stamp: &str) -> (r: Result<Transaction, Error>)
    ensures
        text::outcome(r) == installing(record.deep_view(), stamp@),
{
    if record.profiles.len() == 0 {
        return Err(fail("nix-profile activation record has no profile entry".to_owned()));
    }
    let profile = &record.profiles[0];
    assert(record.deep_view().profiles[0] == profile.deep_view());
    let mut steps: Vec<Step> = Vec::new();
    push_step(
        &mut steps,
        add_profile_step(&profile.profile, &profile.store_path, profile.priority),
    );
    push_step(
        &mut steps,
        transaction::firm_step(
            Action::ListProfile {
                profile: profile.profile.copied(),
                store_path: profile.store_path.clone(),
            },
            String::new(),
        ),
    );
    assert(steps.deep_view() =~= install_steps(profile.deep_view()));
    Ok(Transaction::start(Direction::Activation, steps, stamp))
}

/// A profile activation with the element that provides it.
pub open spec fn with_element_of(record: RecordView, element: Option<Text>) -> RecordView {
    if record.profiles.len() == 0 {
        record
    } else {
        RecordView {
            profiles: record.profiles.update(
                0,
                ProfileView { element, ..record.profiles[0] },
            ),
            ..record
        }
    }
}

/// The record of a profile activation once it is installed.
pub fn with_element(record: ActivationRecord, element: Option<String>) -> (r: ActivationRecord)
    ensures
        r.deep_view() == with_element_of(record.deep_view(), element.deep_view()),
{
    let mut record = record;
    let ghost before = record.deep_view();
    if record.profiles.len() > 0 {
        let entry = record.profiles[0].copied();
        let filled = ProfileRecord { element, ..entry };
        record.profiles.set(0, filled);
        assert(record.profiles.deep_view() =~= before.profiles.update(0, filled.deep_view()));
    }
    record
}

/// The steps of a module activation: the overlay, the module and the record.
pub open spec fn module_enable_steps(
    record: RecordView,
    p: PathsView,
    overlay: Text,
    contents: Text,
    stamp: Text,
) -> Seq<StepView> {
    let module = record.modules[0];
    transaction::write_text(module.overlay, overlay, stamp) + transaction::write_text(
        module.module,
        enabled_text(module),
        stamp,
    ) + record_steps(record.key, p, contents, stamp)
}

pub open spec fn moduling(
    record: RecordView,
    p: PathsView,
    overlay: Text,
    contents: Text,
    stamp: Text,
) -> Result<RunView, Text> {
    if record.modules.len() == 0 {
        Err("module activation record has no module entry"@)
    } else {
        Ok(
            transaction::begun(
                Direction::Activation,
                module_enable_steps(record, p, overlay, contents, stamp),
                stamp,
            ).settled(),
        )
    }
}

fn enable_nix_module(
    record: &ActivationRecord,
    paths: &ActivationPaths,
    overlay: String,
    contents: &str,
    stamp: &str,
) -> (r: Result<Transaction, Error>)
    ensures
        text::outcome(r) == moduling(
            record.deep_view(),
            paths.deep_view(),
            overlay@,
            contents@,
            stamp@,
        ),
{
    if record.modules.len() == 0 {
        return Err(fail("module activation record has no module entry".to_owned()));
    }
    let module = &record.modules[0];
    assert(record.deep_view().modules[0] == module.deep_view());
    let mut steps = write_text_steps(&module.overlay, overlay, stamp);
    push_steps(&mut steps, write_text_steps(&module.module, enabled_module_text(module), stamp));
    push_steps(&mut steps, steps_for_record(record, paths, contents, stamp));
    Ok(Transaction::start(Direction::Activation, steps, stamp))
}

/// Begins a NixOS module activation.
pub fn enable_nixos_module(
    record: &ActivationRecord,
    paths: &ActivationPaths,
    overlay: String,
    contents: &str,
    stamp: &str,
) -> (r: Result<Transaction, Error>)
    ensures
        text::outcome(r) == moduling(
            record.deep_view(),
            paths.deep_view(),
            overlay@,
            contents@,
            stamp@,
        ),
{
    enable_nix_module(record, paths, overlay, contents, stamp)
}

/// Begins a Home Manager module activation.
pub fn enable_home_manager_module(
    record: &ActivationRecord,
    paths: &ActivationPaths,
    overlay: String,
    contents: &str,
    stamp: &str,
) -> (r: Result<Transaction, Error>)
    ensures
        text::outcome(r) == moduling(
            record.deep_view(),
            paths.deep_view(),
            overlay@,
            contents@,
            stamp@,
        ),
{
    enable_nix_module(record, paths, overlay, contents, stamp)
}

// ---- Disabling

/// The steps that take one link back.
pub open spec fn unlink_steps(link: LinkView) -> Seq<StepView> {
    let remove = noting(
        transaction::remove_file(link.link, "failed to remove "@),
        NoteView::Push {
            undo: UndoView::RecreateActiveLink { link: link.link, target: link.target },
        },
    );
    match link.previous {
        PreviousView::Absent => seq![remove],
        PreviousView::BackedUp { backup } => seq![
            remove,
            noting(
                transaction::rename(
                    backup,
                    link.link,
                    "failed to restore "@ + backup + " to "@ + link.link,
                ),
                NoteView::Replace {
                    undo: UndoView::MoveRestoredBack {
                        link: link.link,
                        target: link.target,
                        backup,
                    },
                },
            ),
        ],
    }
}

fn steps_for_unlink(link: &LinkRecord) -> (r: Vec<Step>)
    ensures
        r.deep_view() == unlink_steps(link.deep_view()),
{
    let mut r: Vec<Step> = Vec::new();
    let note = Note::Push {
        undo: Undo::RecreateActiveLink { link: link.link.clone(), target: link.target.clone() },
    };
    push_step(&mut r, with_note(remove_file_step(&link.link, "failed to remove "), note));
    if let PreviousLink::BackedUp { backup } = &link.previous {
        let context = cat4("failed to restore ", backup.as_str(), " to ", link.link.as_str());
        let note = Note::Replace {
            undo: Undo::MoveRestoredBack {
                link: link.link.clone(),
                target: link.target.clone(),
                backup: backup.clone(),
            },
        };
        push_step(&mut r, with_note(rename_step(backup, &link.link, context), note));
    }
    assert(r.deep_view() =~= unlink_steps(link.deep_view()));
    r
}

/// The steps that give one service back.
pub open spec fn release_steps(service: ServiceView) -> Seq<StepView> {
    seq![
        transaction::read_text(service.override_path, "failed to read systemd override "@),
        noting(
            transaction::remove_file(service.override_path, "failed to remove systemd override "@),
            NoteView::Push {
                undo: UndoView::RestoreServiceOverride {
                    service: service.service,
                    override_path: service.override_path,
                    text: Seq::empty(),
                },
            },
        ),
        transaction::reload(),
        transaction::restart(service.service),
    ]
}

fn steps_for_release(service: &ServiceRecord) -> (r: Vec<Step>)
    ensures
        r.deep_view() == release_steps(service.deep_view()),
{
    let mut r: Vec<Step> = Vec::new();
    push_step(
        &mut r,
        read_text_step(&service.override_path, "failed to read systemd override "),
    );
    let note = Note::Push {
        undo: Undo::RestoreServiceOverride {
            service: service.service.clone(),
            override_path: service.override_path.clone(),
            text: String::new(),
        },
    };
    push_step(
        &mut r,
        with_note(
            remove_file_step(&service.override_path, "failed to remove systemd override "),
            note,
        ),
    );
    push_step(&mut r, reload_step());
    push_step(&mut r, restart_step(&service.service));
    assert(r.deep_view() =~= release_steps(service.deep_view()));
    r
}

/// The steps that remove one profile entry, where it is still installed.
pub open spec fn uninstall_steps(profile: ProfileView) -> Seq<StepView> {
    seq![
        transaction::firm(
            ActionView::ListProfile {
                profile: profile.profile,
                store_path: profile.store_path,
            },
            Seq::empty(),
        ),
        noting(
            transaction::if_seen(
                transaction::firm(
                    ActionView::RemoveProfile {
                        profile: profile.profile,
                        store_path: profile.store_path,
                    },
                    "failed to execute nix profile remove"@,
                ),
            ),
            NoteView::Push {
                undo: UndoView::ReinstallProfile {
                    profile: profile.profile,
                    store_path: profile.store_path,
                    priority: profile.priority,
                },
            },
        ),
    ]
}

fn steps_for_uninstall(profile: &ProfileRecord) -> (r: Vec<Step>)
    ensures
        r.deep_view() == uninstall_steps(profile.deep_view()),
{
    let mut r: Vec<Step> = Vec::new();
    push_step(
        &mut r,
        transaction::firm_step(
            Action::ListProfile {
                profile: profile.profile.copied(),
                store_path: profile.store_path.clone(),
            },
            String::new(),
        ),
    );
    let remove = transaction::firm_step(
        Action::RemoveProfile {
            profile: profile.profile.copied(),
            store_path: profile.store_path.clone(),
        },
        "failed to execute nix profile remove".to_owned(),
    );
    let note = Note::Push {
        undo: Undo::ReinstallProfile {
            profile: profile.profile.copied(),
            store_path: profile.store_path.clone(),
            priority: profile.priority,
        },
    };
    push_step(&mut r, with_note(with_when(remove, When::IfSeen), note));
    assert(r.deep_view() =~= uninstall_steps(profile.deep_view()));
    r
}

/// The steps with a note on the last of them.
pub open spec fn noting_last(steps: Seq<StepView>, note: NoteView) -> Seq<StepView> {
    if steps.len() == 0 {
        steps
    } else {
        steps.drop_last().push(noting(steps.last(), note))
    }
}

/// The steps that put one module out of use.
pub open spec fn retire_steps(module: ModuleView, stamp: Text) -> Seq<StepView> {
    seq![transaction::read_text(module.module, "failed to read Nix module "@)] + noting_last(
        transaction::write_text(module.module, disabled_text(module), stamp),
        NoteView::Push {
            undo: UndoView::RestoreModule { module: module.module, text: Seq::empty() },
        },
    )
}

fn steps_for_retire(module: &ModuleRecord, stamp: &str) -> (r: Vec<Step>)
    ensures
        r.deep_view() == retire_steps(module.deep_view(), stamp@),
{
    let mut r: Vec<Step> = Vec::new();
    push_step(&mut r, read_text_step(&module.module, "failed to read Nix module "));
    let mut write = write_text_steps(&module.module, disabled_module_text(module), stamp);
    let ghost all = write.deep_view();
    let note = Note::Push {
        undo: Undo::RestoreModule { module: module.module.clone(), text: String::new() },
    };
    let ghost last_note = note.deep_view();
    if let Some(last) = write.pop() {
        assert(last.deep_view() == all.last());
        assert(write.deep_view() =~= all.drop_last());
        push_step(&mut write, with_note(last, note));
    } else {
        assert(write.deep_view() =~= all);
    }
    assert(write.deep_view() =~= noting_last(all, last_note));
    push_steps(&mut r, write);
    assert(r.deep_view() =~= retire_steps(module.deep_view(), stamp@));
    r
}

pub open spec fn tidy_steps(service: ServiceView) -> Seq<StepView> {
    match paths::parent(service.override_path) {
        Some(parent) => seq![transaction::remove_dir(parent)],
        None => Seq::empty(),
    }
}

fn steps_for_tidy(service: &ServiceRecord) -> (r: Vec<Step>)
    ensures
        r.deep_view() == tidy_steps(service.deep_view()),
{
    let mut r: Vec<Step> = Vec::new();
    if let Some(parent) = parent_of(service.override_path.as_str()) {
        push_step(&mut r, remove_dir_step(parent));
    }
    assert(r.deep_view() =~= tidy_steps(service.deep_view()));
    r
}

pub open spec fn all_unlink_steps(links: Seq<LinkView>) -> Seq<StepView> {
    transaction::spread(links, |link: LinkView| unlink_steps(link))
}

pub open spec fn all_release_steps(services: Seq<ServiceView>) -> Seq<StepView> {
    transaction::spread(services, |service: ServiceView| release_steps(service))
}

pub open spec fn all_uninstall_steps(profiles: Seq<ProfileView>) -> Seq<StepView> {
    transaction::spread(profiles, |profile: ProfileView| uninstall_steps(profile))
}

pub open spec fn all_retire_steps(modules: Seq<ModuleView>, stamp: Text) -> Seq<StepView> {
    transaction::spread(modules, |module: ModuleView| retire_steps(module, stamp))
}

pub open spec fn all_tidy_steps(services: Seq<ServiceView>) -> Seq<StepView> {
    transaction::spread(services, |service: ServiceView| tidy_steps(service))
}

/// The last steps of undoing an activation: the record goes, and with it the
/// directories that are empty now.
pub open spec fn forget_steps(record: RecordView, p: PathsView) -> Seq<StepView> {
    let dir = p.activation_dir(record.key);
    seq![
        transaction::remove_file(p.record_path(record.key), "failed to remove "@),
        transaction::remove_dir(paths::joined(dir, "backups"@)),
        transaction::remove_dir(dir),
    ] + all_tidy_steps(record.services)
}

/// The steps that undo an activation.
pub open spec fn disable_steps(record: RecordView, p: PathsView, stamp: Text) -> Seq<StepView> {
    all_unlink_steps(record.links) + (all_release_steps(record.services) + (all_uninstall_steps(
        record.profiles,
    ) + (all_retire_steps(record.modules, stamp) + forget_steps(record, p))))
}

fn steps_for_unlinks(links: &Vec<LinkRecord>) -> (r: Vec<Step>)
    ensures
        r.deep_view() == all_unlink_steps(links.deep_view()),
{
    let ghost all = links.deep_view();
    let ghost f = |link: LinkView| unlink_steps(link);
    let mut r: Vec<Step> = Vec::new();
    let mut i: usize = 0;
    assert(r.deep_view() =~= transaction::spread(all.take(0), f));
    while i < links.len()
        invariant
            i <= links@.len(),
            all == links.deep_view(),
            all.len() == links@.len(),
            f == (|link: LinkView| unlink_steps(link)),
            r.deep_view() == transaction::spread(all.take(i as int), f),
        decreases links@.len() - i,
    {
        push_steps(&mut r, steps_for_unlink(&links[i]));
        proof {
            transaction::lemma_spread_step(all, f, i as int);
            assert(all[i as int] == links@[i as int].deep_view());
        }
        i += 1;
    }
    assert(all.take(all.len() as int) =~= all);
    r
}

fn steps_for_releases(services: &Vec<ServiceRecord>) -> (r: Vec<Step>)
    ensures
        r.deep_view() == all_release_steps(services.deep_view()),
{
    let ghost all = services.deep_view();
    let ghost f = |service: ServiceView| release_steps(service);
    let mut r: Vec<Step> = Vec::new();
    let mut i: usize = 0;
    assert(r.deep_view() =~= transaction::spread(all.take(0), f));
    while i < services.len()
        invariant
            i <= services@.len(),
            all == services.deep_view(),
            all.len() == services@.len(),
            f == (|service: ServiceView| release_steps(service)),
            r.deep_view() == transaction::spread(all.take(i as int), f),
        decreases services@.len() - i,
    {
        push_steps(&mut r, steps_for_release(&services[i]));
        proof {
            transaction::lemma_spread_step(all, f, i as int);
            assert(all[i as int] == services@[i as int].deep_view());
        }
        i += 1;
    }
    assert(all.take(all.len() as int) =~= all);
    r
}

fn steps_for_uninstalls(profiles: &Vec<ProfileRecord>) -> (r: Vec<Step>)
    ensures
        r.deep_view() == all_uninstall_steps(profiles.deep_view()),
{
    let ghost all = profiles.deep_view();
    let ghost f = |profile: ProfileView| uninstall_steps(profile);
    let mut r: Vec<Step> = Vec::new();
    let mut i: usize = 0;
    assert(r.deep_view() =~= transaction::spread(all.take(0), f));
    while i < profiles.len()
        invariant
            i <= profiles@.len(),
            all == profiles.deep_view(),
            all.len() == profiles@.len(),
            f == (|profile: ProfileView| uninstall_steps(profile)),
            r.deep_view() == transaction::spread(all.take(i as int), f),
        decreases profiles@.len() - i,
    {
        push_steps(&mut r, steps_for_uninstall(&profiles[i]));
        proof {
            transaction::lemma_spread_step(all, f, i as int);
            assert(all[i as int] == profiles@[i as int].deep_view());
        }
        i += 1;
    }
    assert(all.take(all.len() as int) =~= all);
    r
}

fn steps_for_retires(modules: &Vec<ModuleRecord>, stamp: &str) -> (r: Vec<Step>)
    ensures
        r.deep_view() == all_retire_steps(modules.deep_view(), stamp@),
{
    let ghost all = modules.deep_view();
    let ghost f = |module: ModuleView| retire_steps(module, stamp@);
    let mut r: Vec<Step> = Vec::new();
    let mut i: usize = 0;
    assert(r.deep_view() =~= transaction::spread(all.take(0), f));
    while i < modules.len()
        invariant
            i <= modules@.len(),
            all == modules.deep_view(),
            all.len() == modules@.len(),
            f == (|module: ModuleView| retire_steps(module, stamp@)),
            r.deep_view() == transaction::spread(all.take(i as int), f),
        decreases modules@.len() - i,
    {
        push_steps(&mut r, steps_for_retire(&modules[i], stamp));
        proof {
            transaction::lemma_spread_step(all, f, i as int);
            assert(all[i as int] == modules@[i as int].deep_view());
        }
        i += 1;
    }
    assert(all.take(all.len() as int) =~= all);
    r
}

fn steps_for_forget(record: &ActivationRecord, paths: &ActivationPaths) -> (r: Vec<Step>)
    ensures
        r.deep_view() == forget_steps(record.deep_view(), paths.deep_view()),
{
    let dir = paths.activation_dir(record.key.as_str());
    let record_path = paths.record_path(record);
    let mut r: Vec<Step> = Vec::new();
    push_step(&mut r, remove_file_step(&record_path, "failed to remove "));
    push_step(&mut r, remove_dir_step(join(dir.as_str(), "backups")));
    push_step(&mut r, remove_dir_step(dir));
    let ghost head = r.deep_view();
    let ghost all = record.deep_view().services;
    let ghost f = |service: ServiceView| tidy_steps(service);
    let mut i: usize = 0;
    assert(r.deep_view() =~= head + transaction::spread(all.take(0), f));
    while i < record.services.len()
        invariant
            i <= record.services@.len(),
            all == record.deep_view().services,
            all.len() == record.services@.len(),
            f == (|service: ServiceView| tidy_steps(service)),
            r.deep_view() == head + transaction::spread(all.take(i as int), f),
        decreases record.services@.len() - i,
    {
        let ghost before = r.deep_view();
        push_steps(&mut r, steps_for_tidy(&record.services[i]));
        proof {
            transaction::lemma_spread_step(all, f, i as int);
            assert(all[i as int] == record.services@[i as int].deep_view());
            assert((head + transaction::spread(all.take(i as int), f)) + f(all[i as int]) =~= head
                + (transaction::spread(all.take(i as int), f) + f(all[i as int])));
        }
        i += 1;
    }
    assert(all.take(all.len() as int) =~= all);
    assert(r.deep_view() =~= forget_steps(record.deep_view(), paths.deep_view()));
    r
}

/// The transaction that undoes an activation, or the reason why it must not begin.
pub open spec fn disabling(record: RecordView, p: PathsView, snapshot: Snapshot, stamp: Text) -> Result<
    RunView,
    Text,
> {
    match preflight::disable_refusal(record, p, snapshot) {
        Some(problem) => Err(problem),
        None => Ok(
            transaction::begun(
                Direction::Deactivation,
                disable_steps(record, p, stamp),
                stamp,
            ).settled(),
        ),
    }
}

/// Begins to undo an activation.
pub fn disable_record(
    record: &ActivationRecord,
    paths: &ActivationPaths,
    snapshot: &Snapshot,
    stamp: &str,
) -> (r: Result<Transaction, Error>)
    ensures
        text::outcome(r) == disabling(record.deep_view(), paths.deep_view(), *snapshot, stamp@),
{
    if let Err(error) = preflight_disable_record(record, paths, snapshot) {
        return Err(error);
    }
    let mut steps = steps_for_unlinks(&record.links);
    push_steps(&mut steps, steps_for_releases(&record.services));
    push_steps(&mut steps, steps_for_uninstalls(&record.profiles));
    push_steps(&mut steps, steps_for_retires(&record.modules, stamp));
    push_steps(&mut steps, steps_for_forget(record, paths));
    assert(steps.deep_view() =~= disable_steps(record.deep_view(), paths.deep_view(), stamp@));
    Ok(Transaction::start(Direction::Deactivation, steps, stamp))
}

} // verus!
