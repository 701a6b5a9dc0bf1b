//! What is found in a build output, and which backends are offered for it.
use vstd::prelude::*;

use crate::activation::keys::PathsView;
use crate::activation::records::RecordView;
use crate::activation::scripts;
use crate::activation::store::{self, RecordFactsView};
use crate::backends::{self, ActivationBackend};
use crate::directory::{self, DirEntryView};
use crate::discovery::{self, BackendFacts};
use crate::ini::{self, PropertyView};
use crate::laws::enabling;
use crate::laws::literals;
use crate::metadata::MetadataView;
use crate::order;
use crate::paths;
use crate::targets::{
    self, ActivationTarget, CandidateView, DbusView, DetailsView, OutputFacts, TargetView,
};
use crate::text::{self, CharClass, Text};

verus! {

// ---- Command lines

proof fn lemma_stripped_stays(s: Text)
    requires
        s.len() > 0,
        !text::is_white_space(s[0]),
        !text::is_white_space(s.last()),
    ensures
        text::stripped(s) == s,
{
}

proof fn lemma_first_word(word: Text, rest: Text)
    requires
        forall|i: int| 0 <= i < word.len() ==> !text::is_white_space(#[trigger] word[i]),
        rest.len() == 0 || text::is_white_space(rest[0]),
    ensures
        ini::first_word(word + rest) == word,
    decreases word.len(),
{
    let s = word + rest;
    if word.len() == 0 {
        assert(s =~= rest);
        assert(word =~= Seq::empty());
    } else {
        let tail = word.drop_first();
        assert forall|i: int| 0 <= i < tail.len() implies !text::is_white_space(
            #[trigger] tail[i],
        ) by {
            assert(tail[i] == word[i + 1]);
        }
        lemma_first_word(tail, rest);
        assert(s.drop_first() =~= tail + rest);
        assert(s[0] == word[0]);
        assert(seq![word[0]] + tail =~= word);
    }
}

/// Whether a text is an absolute path without white space or quotes.
pub open spec fn is_plain_path(path: Text) -> bool {
    &&& paths::absolute(path)
    &&& forall|i: int| 0 <= i < path.len() ==> !text::is_white_space(#[trigger] path[i])
    &&& !path.contains('"')
}

/// A command line runs the absolute path that it begins with, whatever arguments follow, and
/// whichever one of the markers stands before it; a path in quotes may hold white space.
pub proof fn command_lines_run_their_first_word(path: Text, arguments: Text, marker: char)
    requires
        is_plain_path(path),
        arguments.len() > 0,
        !text::is_white_space(arguments.last()),
        marker == '-' || marker == '@' || marker == '+' || marker == '!' || marker == ':',
    ensures
        ini::executable_of(path) == Some(path),
        ini::executable_of(path + seq![' '] + arguments) == Some(path),
        ini::executable_of(seq![marker] + path) == Some(path),
        ini::executable_of(seq!['"'] + path + seq!['"']) == Some(path),
        ini::executable_of(seq!['"'] + path + seq!['"', ' '] + arguments) == Some(path),
{
    assert(path.len() > 0 && path[0] == '/');
    assert(path[0] != '"');
    assert(text::trimmed_start(path, CharClass::ExecMarker) == path);
    let none = Seq::<char>::empty();
    lemma_stripped_stays(path);
    assert(path + none =~= path);
    lemma_first_word(path, none);
    let with = path + seq![' '] + arguments;
    assert(with.last() == arguments.last());
    assert(with =~= path + (seq![' '] + arguments));
    lemma_stripped_stays(with);
    lemma_first_word(path, seq![' '] + arguments);
    let marked = seq![marker] + path;
    assert(marked.last() == path.last());
    lemma_stripped_stays(marked);
    assert forall|i: int| 0 <= i < marked.len() implies !text::is_white_space(
        #[trigger] marked[i],
    ) by {
        if i > 0 {
            assert(marked[i] == path[i - 1]);
        }
    }
    assert(marked + none =~= marked);
    lemma_first_word(marked, none);
    assert(marked.drop_first() =~= path);
    assert(text::trimmed_start(marked, CharClass::ExecMarker) == path);
    lemma_quoted(path, none);
    assert(seq!['"'] + path + seq!['"'] =~= seq!['"'] + path + seq!['"'] + none);
    lemma_quoted(path, seq![' '] + arguments);
    assert(seq!['"'] + path + seq!['"', ' '] + arguments =~= seq!['"'] + path + seq!['"'] + (seq![
        ' ',
    ] + arguments));
}

proof fn lemma_quoted(path: Text, rest: Text)
    requires
        paths::absolute(path),
        !path.contains('"'),
        rest.len() == 0 || !text::is_white_space(rest.last()),
    ensures
        ini::executable_of(seq!['"'] + path + seq!['"'] + rest) == Some(path),
{
    let line = seq!['"'] + path + seq!['"'] + rest;
    assert(line[0] == '"');
    if rest.len() > 0 {
        assert(line.last() == rest.last());
    } else {
        assert(line.last() == '"');
    }
    lemma_stripped_stays(line);
    let inner = line.drop_first();
    let p = path.len() as int;
    assert forall|i: int| 0 <= i < p implies inner[i] != '"' by {
        assert(inner[i] == path[i]);
        if path[i] == '"' {
            assert(path.contains('"'));
        }
    }
    assert(inner[p] == '"');
    text::lemma_position_unique(inner, '"', p);
    assert(inner.take(p) =~= path);
    assert(text::trimmed_start(path, CharClass::ExecMarker) == path);
}

/// What is found as a command line's program is always an absolute path.
pub proof fn programs_are_absolute(exec_start: Text)
    ensures
        ini::executable_of(exec_start) matches Some(path) ==> paths::absolute(path),
{
}

// ---- Service files

/// A later value of a key counts before an earlier one, an empty one not at all, and other
/// keys and sections make no difference.
pub proof fn the_last_value_counts(
    values: Seq<PropertyView>,
    last: PropertyView,
    section: Text,
    key: Text,
)
    ensures
        last.section == section && last.key == key && last.value.len() > 0 ==> ini::last_value(
            values.push(last),
            section,
            key,
        ) == Some(last.value),
        last.section != section || last.key != key || last.value.len() == 0 ==> ini::last_value(
            values.push(last),
            section,
            key,
        ) == ini::last_value(values, section, key),
{
    assert(values.push(last).drop_last() =~= values);
}

/// A service file with an override's text starts what the override was made to start.
pub proof fn overrides_are_read_as_written(exec_start: Text)
    requires
        !exec_start.contains('\n'),
        exec_start.len() > 0,
        !text::is_white_space(exec_start[0]),
        !text::is_white_space(exec_start.last()),
    ensures
        ini::last_value(
            ini::properties_in(scripts::override_text(exec_start)),
            "Service"@,
            "ExecStart"@,
        ) == Some(exec_start),
{
    enabling::overrides_start_the_given_command(exec_start);
    reveal_strlit("[Service]");
    reveal_strlit("Service");
    reveal_strlit("ExecStart=");
    reveal_strlit("ExecStart");
    let none = Seq::<char>::empty();
    let head = "[Service]"@;
    let reset = "ExecStart="@;
    let set = reset + exec_start;
    let lines = seq![head, reset, set, none];
    lemma_stripped_stays(head);
    lemma_stripped_stays(reset);
    assert(set.last() == exec_start.last());
    lemma_stripped_stays(set);
    assert(text::stripped(none) =~= none);
    let key = "ExecStart"@;
    reveal_with_fuel(literals::free_from, 11);
    reveal_with_fuel(literals::same_from, 11);
    literals::lemma_free(key, '=');
    lemma_value_line(reset, key, none);
    lemma_value_line(set, key, exec_start);
    assert(text::stripped(key) == key) by {
        lemma_stripped_stays(key);
    }
    assert(text::stripped(exec_start) == exec_start) by {
        lemma_stripped_stays(exec_start);
    }
    let name = head.subrange(1, head.len() - 1);
    assert(name == "Service"@) by {
        literals::lemma_same(name, "Service"@);
    }
    assert(ini::line_of(head) == (ini::LineView::Section { name }));
    let l1 = lines.drop_first();
    let l2 = l1.drop_first();
    let l3 = l2.drop_first();
    let l4 = l3.drop_first();
    assert(l1[0] == reset && l2[0] == set && l3[0] == none && l4.len() == 0);
    let blank = PropertyView { section: name, key, value: none };
    let given = PropertyView { section: name, key, value: exec_start };
    assert(ini::properties_of(l4, name) =~= Seq::empty());
    assert(ini::properties_of(l3, name) =~= Seq::empty());
    assert(ini::properties_of(l2, name) =~= seq![given]);
    assert(ini::properties_of(l1, name) =~= seq![blank, given]);
    let values = ini::properties_of(lines, none);
    assert(values =~= seq![blank, given]);
    assert(values.last() == given);
}

proof fn lemma_value_line(line: Text, key: Text, value: Text)
    requires
        line == key + seq!['='] + value || line =~= key + seq!['='] + value,
        key.len() > 0,
        !key.contains('='),
        key[0] != '#' && key[0] != ';' && key[0] != '[',
    ensures
        ini::line_of(line) == (ini::LineView::Value {
            key: text::stripped(key),
            value: text::stripped(value),
        }),
{
    let p = key.len() as int;
    assert(line =~= key + seq!['='] + value);
    assert forall|i: int| 0 <= i < p implies line[i] != '=' by {
        assert(line[i] == key[i]);
        if key[i] == '=' {
            assert(key.contains('='));
        }
    }
    assert(line[p] == '=');
    text::lemma_position_unique(line, '=', p);
    assert(line.take(p) =~= key);
    assert(line.skip(p + 1) =~= value);
    assert(line[0] == key[0]);
}

// ---- The report

proof fn lemma_reported(
    facts: OutputFacts,
    shim: Option<TargetView>,
    units: Seq<TargetView>,
    dbus: Seq<DbusView>,
    t: TargetView,
)
    requires
        targets::report_of(facts) is Ok,
        targets::dbus_in(facts) == Ok::<Seq<DbusView>, Text>(dbus),
        targets::shim_in(facts) == Ok::<Option<TargetView>, Text>(shim),
        targets::all_units(facts, dbus) == Ok::<Seq<TargetView>, Text>(units),
    ensures
        targets::report_of(facts)->Ok_0.targets.contains(t) == targets::deduped(
            targets::found_in(shim, units, dbus),
        ).contains(t),
{
    let kept = targets::deduped(targets::found_in(shim, units, dbus));
    let told = targets::report_of(facts)->Ok_0.targets;
    order::sorting_orders_and_keeps::<ActivationTarget>(kept);
    told.to_multiset_ensures();
    kept.to_multiset_ensures();
    assert(told.contains(t) == (told.to_multiset().count(t) > 0));
    assert(kept.contains(t) == (kept.to_multiset().count(t) > 0));
}

proof fn lemma_deduped_from(all: Seq<TargetView>, t: TargetView)
    ensures
        targets::deduped(all).contains(t) ==> all.contains(t),
    decreases all.len(),
{
    if all.len() > 0 {
        let front = all.drop_last();
        lemma_deduped_from(front, t);
        let kept = targets::deduped(front);
        if targets::deduped(all).contains(t) {
            if kept.contains(t) {
                let i = choose|i: int| 0 <= i < front.len() && front[i] == t;
                assert(all[i] == t);
            } else {
                let all_kept = targets::deduped(all);
                let i = choose|i: int| 0 <= i < all_kept.len() && all_kept[i] == t;
                if i < kept.len() {
                    assert(kept[i] == t);
                }
                assert(all[all.len() - 1] == t);
            }
        }
    }
}

proof fn lemma_first_is_kept(all: Seq<TargetView>)
    requires
        all.len() > 0,
    ensures
        targets::deduped(all).len() > 0,
        targets::deduped(all)[0] == all[0],
    decreases all.len(),
{
    let front = all.drop_last();
    if front.len() > 0 {
        lemma_first_is_kept(front);
    } else {
        assert(targets::deduped(front) =~= Seq::empty());
        assert(!targets::has_id(targets::deduped(front), all.last().id));
    }
}

/// Whether a target offers to link executables: it is the more likely one where one of their
/// names on the search path leads into the output already.
pub open spec fn offers_linking(t: TargetView, executables: Seq<Text>) -> bool {
    &&& t.id == "path-shim"@
    &&& t.supported
    &&& t.details matches DetailsView::PathShim { executables: listed, path_matches } && listed
        == executables && (t.confidence == "high"@) == (exists|k: int|
        0 <= k < path_matches.len() && (#[trigger] path_matches[k]).points_to_output)
}

/// An output with executables is offered for linking, with all of them and the commands of
/// their names on the search path.
pub proof fn executables_are_offered_for_linking(facts: OutputFacts, bin: directory::DirRead)
    requires
        facts.bin == Some(bin),
        targets::report_of(facts) is Ok,
    ensures
        ({
            let executables = directory::executables_in(
                paths::joined(facts.output@, "bin"@),
                bin.deep_view(),
            );
            &&& executables is Ok
            &&& executables->Ok_0.len() > 0 ==> exists|i: int|
                0 <= i < targets::report_of(facts)->Ok_0.targets.len() && offers_linking(
                    #[trigger] targets::report_of(facts)->Ok_0.targets[i],
                    executables->Ok_0,
                )
        }),
{
    let dbus = targets::dbus_in(facts)->Ok_0;
    let shim = targets::shim_in(facts)->Ok_0;
    let units = targets::all_units(facts, dbus)->Ok_0;
    let executables = directory::executables_in(
        paths::joined(facts.output@, "bin"@),
        bin.deep_view(),
    )->Ok_0;
    if executables.len() > 0 {
        let t = shim->0;
        let found = targets::found_in(shim, units, dbus);
        assert(found[0] == t);
        lemma_first_is_kept(found);
        assert(targets::deduped(found).contains(t));
        lemma_reported(facts, shim, units, dbus, t);
        let told = targets::report_of(facts)->Ok_0.targets;
        let i = choose|i: int| 0 <= i < told.len() && told[i] == t;
        reveal_strlit("high");
        reveal_strlit("medium");
        reveal_strlit("low");
        assert("high"@.len() == 4 && "medium"@.len() == 6 && "low"@.len() == 3);
        let commands = t.details->path_matches;
        assert((t.confidence == "high"@) == targets::any_points_to_output(commands));
        assert(offers_linking(told[i], executables));
    }
}

proof fn lemma_matches_tell(
    dirs: Seq<Text>,
    name: Text,
    output: Text,
    candidates: Seq<CandidateView>,
)
    ensures
        forall|k: int|
            0 <= k < targets::matches_in(dirs, name, output, candidates).len() ==> {
                let found = #[trigger] targets::matches_in(dirs, name, output, candidates)[k];
                &&& found.name == name
                &&& exists|d: int|
                    0 <= d < dirs.len() && found.path == paths::joined(#[trigger] dirs[d], name)
                &&& targets::candidate_at(candidates, found.path) matches Some(candidate)
                    && found.resolved == candidate.resolved
                &&& found.points_to_output == (found.resolved matches Some(path)
                    && paths::lies_under(path, output))
            },
    decreases dirs.len(),
{
    if dirs.len() > 0 {
        let front = dirs.drop_last();
        lemma_matches_tell(front, name, output, candidates);
        let before = targets::matches_in(front, name, output, candidates);
        let all = targets::matches_in(dirs, name, output, candidates);
        assert forall|k: int| 0 <= k < all.len() implies {
            let found = #[trigger] all[k];
            &&& found.name == name
            &&& exists|d: int|
                0 <= d < dirs.len() && found.path == paths::joined(#[trigger] dirs[d], name)
            &&& targets::candidate_at(candidates, found.path) matches Some(candidate)
                && found.resolved == candidate.resolved
            &&& found.points_to_output == (found.resolved matches Some(path) && paths::lies_under(
                path,
                output,
            ))
        } by {
            if k < before.len() {
                assert(all[k] == before[k]);
                let d = choose|d: int|
                    0 <= d < front.len() && before[k].path == paths::joined(
                        #[trigger] front[d],
                        name,
                    );
                assert(dirs[d] == front[d]);
            } else {
                assert(dirs[dirs.len() - 1] == dirs.last());
            }
        }
    }
}

/// What is told of a command on the search path is so: it has the name, it is in one of the
/// directories, something is there, and it leads into the output just where that is said.
pub proof fn commands_on_the_path_are_told_truly(
    dirs: Seq<Text>,
    name: Text,
    output: Text,
    candidates: Seq<CandidateView>,
    k: int,
)
    requires
        0 <= k < targets::matches_in(dirs, name, output, candidates).len(),
    ensures
        ({
            let found = targets::matches_in(dirs, name, output, candidates)[k];
            &&& found.name == name
            &&& exists|d: int|
                0 <= d < dirs.len() && found.path == paths::joined(#[trigger] dirs[d], name)
            &&& targets::candidate_at(candidates, found.path) matches Some(candidate)
                && found.resolved == candidate.resolved
            &&& found.points_to_output == (found.resolved matches Some(path)
                && paths::lies_under(path, output))
        }),
{
    lemma_matches_tell(dirs, name, output, candidates);
}

/// A user service is told by its file: its name is the file's, its command the last that the
/// file gives, and it can be activated just where that command runs an absolute path.
pub proof fn user_services_are_told_by_their_file(
    dir: Text,
    entry: DirEntryView,
    dbus: Seq<DbusView>,
)
    ensures
        targets::unit_at(dir, Ok(entry), dbus) matches Ok(Some(target)) ==> {
            &&& paths::extension(entry.path) == Some("service"@)
            &&& entry.text matches Ok(contents) && {
                let command = ini::last_value(
                    ini::properties_in(contents),
                    "Service"@,
                    "ExecStart"@,
                );
                &&& target.kind == "systemd-user-service"@
                &&& target.details matches DetailsView::SystemdUserService {
                    service,
                    service_file,
                    exec_start,
                    executable,
                    ..
                } && {
                    &&& paths::last_name(entry.path) == Some(service)
                    &&& target.id == "systemd-user:"@ + service
                    &&& service_file == entry.path
                    &&& command matches Some(line) ==> exec_start == line && executable
                        == ini::executable_of(line)
                    &&& command is None ==> exec_start.len() == 0 && executable is None
                    &&& target.supported == (executable is Some)
                }
            }
        },
        targets::unit_at(dir, Ok(entry), dbus) matches Ok(None) ==> paths::extension(entry.path)
            != Some("service"@),
{
}

/// A D-Bus service is told by its file, and cannot be activated by itself.
pub proof fn dbus_services_are_told_by_their_file(dir: Text, entry: DirEntryView)
    ensures
        targets::dbus_at(dir, Ok(entry)) matches Ok(Some(service)) ==> {
            &&& paths::extension(entry.path) == Some("service"@)
            &&& service.service_file == entry.path
            &&& entry.text matches Ok(contents) && {
                let values = ini::properties_in(contents);
                &&& ini::last_value(values, "D-BUS Service"@, "Name"@) == Some(service.name)
                &&& ini::last_value(values, "D-BUS Service"@, "Exec"@) == service.command
                &&& ini::last_value(values, "D-BUS Service"@, "SystemdService"@)
                    == service.systemd_service
            }
            &&& !targets::dbus_target_of(service).supported
            &&& targets::dbus_target_of(service).id == "dbus-service:"@ + service.name
            &&& targets::dbus_target_of(service).details == (DetailsView::DbusService {
                name: service.name,
                service_file: service.service_file,
                command: service.command,
                systemd_service: service.systemd_service,
            })
        },
{
}

/// What a report tells was found in the output, and is not told as active.
pub proof fn reports_tell_of_the_output(facts: OutputFacts, t: TargetView)
    requires
        targets::report_of(facts) is Ok,
        targets::report_of(facts)->Ok_0.targets.contains(t),
    ensures
        targets::report_of(facts)->Ok_0.output == facts.output@,
        ({
            let dbus = targets::dbus_in(facts)->Ok_0;
            let units = targets::all_units(facts, dbus)->Ok_0;
            ||| targets::shim_in(facts) == Ok::<Option<TargetView>, Text>(Some(t))
            ||| units.contains(t)
            ||| exists|i: int|
                0 <= i < dbus.len() && t == targets::dbus_target_of(#[trigger] dbus[i]) && !(
                dbus[i].systemd_service matches Some(service) && targets::has_unit(units, service))
        }),
{
    let dbus = targets::dbus_in(facts)->Ok_0;
    let shim = targets::shim_in(facts)->Ok_0;
    let units = targets::all_units(facts, dbus)->Ok_0;
    let found = targets::found_in(shim, units, dbus);
    lemma_reported(facts, shim, units, dbus, t);
    lemma_deduped_from(found, t);
    let head = match shim {
        Some(target) => seq![target],
        None => Seq::empty(),
    };
    let loose = targets::loose_dbus(dbus, units);
    let i = choose|i: int| 0 <= i < found.len() && found[i] == t;
    if i < head.len() {
        assert(head[i] == t);
    } else if i < head.len() + units.len() {
        assert(units[i - head.len()] == t);
    } else {
        assert(loose[i - head.len() - units.len()] == t);
        lemma_loose(dbus, units, t);
    }
}

proof fn lemma_loose(dbus: Seq<DbusView>, units: Seq<TargetView>, t: TargetView)
    requires
        targets::loose_dbus(dbus, units).contains(t),
    ensures
        exists|i: int|
            0 <= i < dbus.len() && t == targets::dbus_target_of(#[trigger] dbus[i]) && !(
            dbus[i].systemd_service matches Some(service) && targets::has_unit(units, service)),
    decreases dbus.len(),
{
    if dbus.len() > 0 {
        let front = dbus.drop_last();
        let before = targets::loose_dbus(front, units);
        let all = targets::loose_dbus(dbus, units);
        if before.contains(t) {
            lemma_loose(front, units, t);
            let i = choose|i: int|
                0 <= i < front.len() && t == targets::dbus_target_of(#[trigger] front[i]) && !(
                front[i].systemd_service matches Some(service) && targets::has_unit(
                    units,
                    service,
                ));
            assert(dbus[i] == front[i]);
        } else {
            let k = choose|k: int| 0 <= k < all.len() && all[k] == t;
            if k < before.len() {
                assert(before[k] == t);
            }
            assert(dbus[dbus.len() - 1] == dbus.last());
        }
    }
}

// ---- Choosing a service

proof fn lemma_supported(found: Seq<TargetView>, t: TargetView)
    ensures
        backends::supported_services(found).contains(t) == (found.contains(t) && t.supported
            && t.kind == "systemd-user-service"@),
    decreases found.len(),
{
    if found.len() > 0 {
        let front = found.drop_last();
        lemma_supported(front, t);
        let before = backends::supported_services(front);
        let all = backends::supported_services(found);
        let last = found.last();
        assert(found[found.len() - 1] == last);
        assert(found.contains(t) == (front.contains(t) || last == t)) by {
            if found.contains(t) {
                let i = choose|i: int| 0 <= i < found.len() && found[i] == t;
                if i < front.len() {
                    assert(front[i] == t);
                }
            }
            if front.contains(t) {
                let i = choose|i: int| 0 <= i < front.len() && front[i] == t;
                assert(found[i] == t);
            }
        }
        if backends::is_supported_service(last) {
            assert(all == before.push(last));
            assert(all.contains(t) == (before.contains(t) || last == t)) by {
                if all.contains(t) {
                    let i = choose|i: int| 0 <= i < all.len() && all[i] == t;
                    if i < before.len() {
                        assert(before[i] == t);
                    }
                }
                if before.contains(t) {
                    let i = choose|i: int| 0 <= i < before.len() && before[i] == t;
                    assert(all[i] == t);
                }
                assert(all.last() == last);
                if last == t {
                    assert(all[all.len() - 1] == t);
                }
            }
        }
    }
}

/// Whether a target is a service that can be activated, and is told as chosen.
pub open spec fn is_chosen(t: TargetView, chosen: targets::ServiceSpecView) -> bool {
    &&& t.supported
    &&& t.kind == "systemd-user-service"@
    &&& t.details matches DetailsView::SystemdUserService {
        service,
        service_file,
        exec_start,
        executable,
        ..
    } && service == chosen.service && service_file == chosen.service_file && exec_start
        == chosen.exec_start && executable == chosen.executable
}

/// The service that is chosen is one of the output's that can be activated, there is no
/// other, and its program lies in the output.
pub proof fn the_only_service_is_chosen(facts: OutputFacts)
    ensures
        backends::service_choice(facts) matches Ok(chosen) ==> {
            let told = targets::report_of(facts)->Ok_0.targets;
            &&& chosen.executable matches Some(path) && paths::lies_under(path, facts.output@)
            &&& exists|i: int|
                0 <= i < told.len() && is_chosen(#[trigger] told[i], chosen) && forall|j: int|
                    0 <= j < told.len() && (#[trigger] told[j]).supported && told[j].kind
                        == "systemd-user-service"@ ==> told[j] == told[i]
        },
{
    if let Ok(chosen) = backends::service_choice(facts) {
        let told = targets::report_of(facts)->Ok_0.targets;
        let known = backends::supported_services(told);
        let t = known[0];
        assert(known.contains(t));
        lemma_supported(told, t);
        let i = choose|i: int| 0 <= i < told.len() && told[i] == t;
        assert(is_chosen(told[i], chosen));
        assert forall|j: int|
            0 <= j < told.len() && (#[trigger] told[j]).supported && told[j].kind
                == "systemd-user-service"@ implies told[j] == told[i] by {
            lemma_supported(told, told[j]);
            assert(told.contains(told[j]));
            let k = choose|k: int| 0 <= k < known.len() && known[k] == told[j];
            assert(k == 0);
        }
    }
}

// ---- Backends

/// A report offers each backend where it can work, tells it as active where the fork's
/// record is of its kind, and the profile also where it already holds the output.
pub proof fn backends_are_offered_where_they_work(active: Option<RecordView>, facts: BackendFacts)
    ensures
        discovery::offered(active, facts) matches Ok(report) ==> {
            let told = targets::report_of(facts.output)->Ok_0.targets;
            let all = report.backends;
            let kind = match active {
                Some(record) => record.mode,
                None => Seq::empty(),
            };
            &&& report.output == facts.output.output@
            &&& all.len() == 5
            &&& all[0].id == "nix-profile"@ && all[0].supported
            &&& all[0].active == (active is Some && kind == "nix-profile"@
                || discovery::in_default_profile(facts))
            &&& all[1].id == "nixos-module"@ && all[1].supported == facts.is_nixos
            &&& all[1].active == (active is Some && kind == "nixos-module"@)
            &&& all[2].id == "home-manager-module"@ && all[2].supported == facts.has_home_manager
            &&& all[2].active == (active is Some && kind == "home-manager-module"@)
            &&& all[3].id == "path-shim"@ && (all[3].supported == (
            discovery::executables_of(facts.output)->Ok_0 > 0))
            &&& all[3].active == (active is Some && kind == "path-shim"@)
            &&& all[4].id == "systemd-user-service"@
            &&& all[4].supported == (backends::supported_services(told).len() == 1)
            &&& all[4].active == (active is Some && kind == "systemd-user-service"@)
            &&& forall|i: int| 0 <= i < 5 ==> (#[trigger] all[i]).kind == all[i].id
        },
{
}

/// A backend is told as active by the fork's own record: of an active fork that of its mode,
/// and of one that is not active none but a profile that holds the output.
pub proof fn active_backends_are_those_of_the_record(
    m: MetadataView,
    p: PathsView,
    records: Seq<RecordFactsView>,
    facts: BackendFacts,
    i: int,
)
    requires
        0 < i < 5,
    ensures
        discovery::offered_to(m, p, records, facts) matches Ok(report) ==> (
        store::status_of(m, p, records) matches Ok(status) && report.backends[i].active == (
        status matches Some(record) && record.mode == report.backends[i].kind)),
{
    if let Ok(report) = discovery::offered_to(m, p, records, facts) {
        let active = store::status_of(m, p, records)->Ok_0;
        backends_are_offered_where_they_work(active, facts);
        assert(i == 1 || i == 2 || i == 3 || i == 4);
    }
}

/// Switching rebuilds the system or the home of the module's backend, with the flake that was
/// given, and no other backend can switch.
pub proof fn switching_rebuilds_with_the_flake(backend: ActivationBackend, flake: Option<Text>)
    ensures
        (backends::switch_of(backend, flake) is Ok) == (backend == ActivationBackend::NixosModule
            || backend == ActivationBackend::HomeManagerModule),
        backends::switch_of(backend, flake) matches Ok(command) ==> {
            let words = seq![command.program] + command.args;
            &&& words.contains("switch"@)
            &&& backend == ActivationBackend::NixosModule ==> words[0] == "sudo"@ && words[1]
                == "nixos-rebuild"@ && words[2] == "switch"@
            &&& backend == ActivationBackend::HomeManagerModule ==> words[0] == "home-manager"@
                && words[1] == "switch"@
            &&& flake matches Some(flake) ==> words.last() == flake && words[words.len() - 2]
                == "--flake"@
            &&& flake is None ==> words.last() == "switch"@
        },
{
    if let Ok(command) = backends::switch_of(backend, flake) {
        let words = seq![command.program] + command.args;
        if backend == ActivationBackend::NixosModule {
            assert(words[2] == "switch"@);
        } else {
            assert(words[1] == "switch"@);
        }
    }
}

} // verus!
