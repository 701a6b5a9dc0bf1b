//! What in a build output could be activated.
use vstd::prelude::*;

use crate::copying::Copied;
use crate::directory::{self, executable_entries, tell, DirEntry, DirEntryView, DirRead, EntryRead};
use crate::ini::{self, last_nonempty_value, parse_exec_executable, parse_ini, Property, PropertyView};
use crate::number::{self, usize_text};
use crate::order::{self, sort, text_not_after, Ranked};
use crate::paths::{self, file_extension, file_name, join, path_starts_with};
use crate::snapshot::ContentRead;
use crate::text::{self, cat2, cat3, cat4, fail, push_line, same, split, Error, Text};

verus! {

// ---- Targets

#[derive(Debug, Clone)]
pub struct TargetReport {
    pub output: String,
    pub targets: Vec<ActivationTarget>,
}

#[derive(Debug, Clone)]
pub struct ActivationTarget {
    pub id: String,
    pub kind: String,
    pub confidence: String,
    pub supported: bool,
    pub active: bool,
    pub evidence: Vec<String>,
    pub details: TargetDetails,
}

#[derive(Debug, Clone)]
pub enum TargetDetails {
    PathShim { executables: Vec<String>, path_matches: Vec<PathMatch> },
    SystemdUserService {
        service: String,
        service_file: String,
        exec_start: String,
        executable: Option<String>,
        dbus_names: Vec<String>,
    },
    DbusService {
        name: String,
        service_file: String,
        command: Option<String>,
        systemd_service: Option<String>,
    },
}

/// A command of the same name that is found in `PATH`.
#[derive(Debug, Clone)]
pub struct PathMatch {
    pub name: String,
    pub path: String,
    pub resolved: Option<String>,
    pub points_to_output: bool,
}

/// What is needed to override a systemd user service.
#[derive(Debug, Clone)]
pub struct SystemdUserServiceSpec {
    pub service: String,
    pub service_file: String,
    pub exec_start: String,
    pub executable: Option<String>,
}

pub struct ReportView {
    pub output: Text,
    pub targets: Seq<TargetView>,
}

pub struct TargetView {
    pub id: Text,
    pub kind: Text,
    pub confidence: Text,
    pub supported: bool,
    pub active: bool,
    pub evidence: Seq<Text>,
    pub details: DetailsView,
}

pub enum DetailsView {
    PathShim { executables: Seq<Text>, path_matches: Seq<MatchView> },
    SystemdUserService {
        service: Text,
        service_file: Text,
        exec_start: Text,
        executable: Option<Text>,
        dbus_names: Seq<Text>,
    },
    DbusService {
        name: Text,
        service_file: Text,
        command: Option<Text>,
        systemd_service: Option<Text>,
    },
}

pub struct MatchView {
    pub name: Text,
    pub path: Text,
    pub resolved: Option<Text>,
    pub points_to_output: bool,
}

pub struct ServiceSpecView {
    pub service: Text,
    pub service_file: Text,
    pub exec_start: Text,
    pub executable: Option<Text>,
}

impl DeepView for PathMatch {
    type V = MatchView;

    open spec fn deep_view(&self) -> MatchView {
        MatchView {
            name: self.name@,
            path: self.path@,
            resolved: self.resolved.deep_view(),
            points_to_output: self.points_to_output,
        }
    }
}

impl DeepView for TargetDetails {
    type V = DetailsView;

    open spec fn deep_view(&self) -> DetailsView {
        match self {
            TargetDetails::PathShim { executables, path_matches } => DetailsView::PathShim {
                executables: executables.deep_view(),
                path_matches: path_matches.deep_view(),
            },
            TargetDetails::SystemdUserService {
                service,
                service_file,
                exec_start,
                executable,
                dbus_names,
            } => DetailsView::SystemdUserService {
                service: service@,
                service_file: service_file@,
                exec_start: exec_start@,
                executable: executable.deep_view(),
                dbus_names: dbus_names.deep_view(),
            },
            TargetDetails::DbusService {
                name,
                service_file,
                command,
                systemd_service,
            } => DetailsView::DbusService {
                name: name@,
                service_file: service_file@,
                command: command.deep_view(),
                systemd_service: systemd_service.deep_view(),
            },
        }
    }
}

impl DeepView for ActivationTarget {
    type V = TargetView;

    open spec fn deep_view(&self) -> TargetView {
        TargetView {
            id: self.id@,
            kind: self.kind@,
            confidence: self.confidence@,
            supported: self.supported,
            active: self.active,
            evidence: self.evidence.deep_view(),
            details: self.details.deep_view(),
        }
    }
}

impl DeepView for TargetReport {
    type V = ReportView;

    open spec fn deep_view(&self) -> ReportView {
        ReportView { output: self.output@, targets: self.targets.deep_view() }
    }
}

impl DeepView for SystemdUserServiceSpec {
    type V = ServiceSpecView;

    open spec fn deep_view(&self) -> ServiceSpecView {
        ServiceSpecView {
            service: self.service@,
            service_file: self.service_file@,
            exec_start: self.exec_start@,
            executable: self.executable.deep_view(),
        }
    }
}

/// Targets are listed by their id.
impl Ranked for ActivationTarget {
    open spec fn le(a: TargetView, b: TargetView) -> bool {
        order::text_le(a.id, b.id)
    }

    proof fn le_is_total(a: TargetView, b: TargetView) {
        order::text_le_total(a.id, b.id);
    }

    proof fn le_is_transitive(a: TargetView, b: TargetView, c: TargetView) {
        order::text_le_transitive(a.id, b.id, c.id);
    }

    fn not_after(&self, other: &Self) -> (r: bool) {
        text_not_after(self.id.as_str(), other.id.as_str())
    }
}

// ---- Facts about an output

/// An entry that exists, and what it resolves to.
#[derive(Debug, Clone)]
pub struct Candidate {
    pub path: String,
    pub resolved: Option<String>,
}

pub struct CandidateView {
    pub path: Text,
    pub resolved: Option<Text>,
}

impl DeepView for Candidate {
    type V = CandidateView;

    open spec fn deep_view(&self) -> CandidateView {
        CandidateView { path: self.path@, resolved: self.resolved.deep_view() }
    }
}

/// What was read of a build output: the directories that count, each `None` where it is
/// no directory, the search path, and the entries on it that exist.
#[derive(Debug, Clone)]
pub struct OutputFacts {
    pub output: String,
    pub bin: Option<DirRead>,
    pub share_units: Option<DirRead>,
    pub lib_units: Option<DirRead>,
    pub dbus: Option<DirRead>,
    pub path: String,
    pub candidates: Vec<Candidate>,
}

/// The directories of a build output that count, each read where it is one.
#[derive(Debug, Clone)]
pub struct OutputDirs {
    pub bin: String,
    pub share_units: String,
    pub lib_units: String,
    pub dbus: String,
}

/// The directories to read for the facts about an output.
pub fn output_dirs(output: &str) -> (r: OutputDirs)
    ensures
        r.bin@ == paths::joined(output@, "bin"@),
        r.share_units@ == paths::joined(output@, "share/systemd/user"@),
        r.lib_units@ == paths::joined(output@, "lib/systemd/user"@),
        r.dbus@ == paths::joined(output@, "share/dbus-1/services"@),
{
    OutputDirs {
        bin: join(output, "bin"),
        share_units: join(output, "share/systemd/user"),
        lib_units: join(output, "lib/systemd/user"),
        dbus: join(output, "share/dbus-1/services"),
    }
}

// ---- Commands

/// The first candidate with a path, if there is one.
pub open spec fn candidate_at(candidates: Seq<CandidateView>, path: Text) -> Option<CandidateView>
    decreases candidates.len(),
{
    if candidates.len() == 0 {
        None
    } else if candidates[0].path == path {
        Some(candidates[0])
    } else {
        candidate_at(candidates.drop_first(), path)
    }
}

fn find_candidate<'a>(candidates: &'a Vec<Candidate>, path: &str) -> (r: Option<&'a Candidate>)
    ensures
        match r {
            Some(found) => candidate_at(candidates.deep_view(), path@) == Some(found.deep_view()),
            None => candidate_at(candidates.deep_view(), path@) is None,
        },
{
    let ghost all = candidates.deep_view();
    let mut i: usize = 0;
    assert(all.skip(0) =~= all);
    while i < candidates.len()
        invariant
            i <= candidates@.len(),
            all == candidates.deep_view(),
            all.len() == candidates@.len(),
            candidate_at(all, path@) == candidate_at(all.skip(i as int), path@),
        decreases candidates@.len() - i,
    {
        assert(all.skip(i as int)[0] == candidates@[i as int].deep_view());
        if same(candidates[i].path.as_str(), path) {
            return Some(&candidates[i]);
        }
        assert(all.skip(i as int).drop_first() =~= all.skip(i + 1));
        i += 1;
    }
    None
}

/// Whether a resolved path lies in the output.
pub open spec fn points_to(resolved: Option<Text>, output: Text) -> bool {
    match resolved {
        Some(path) => paths::lies_under(path, output),
        None => false,
    }
}

/// The commands of a name in the directories.
pub open spec fn matches_in(
    dirs: Seq<Text>,
    name: Text,
    output: Text,
    candidates: Seq<CandidateView>,
) -> Seq<MatchView>
    decreases dirs.len(),
{
    if dirs.len() == 0 {
        Seq::empty()
    } else {
        let front = matches_in(dirs.drop_last(), name, output, candidates);
        let path = paths::joined(dirs.last(), name);
        match candidate_at(candidates, path) {
            None => front,
            Some(found) => front.push(
                MatchView {
                    name,
                    path,
                    resolved: found.resolved,
                    points_to_output: points_to(found.resolved, output),
                },
            ),
        }
    }
}

fn find_path_matches(
    dirs: &Vec<String>,
    name: &str,
    output: &str,
    candidates: &Vec<Candidate>,
) -> (r: Vec<PathMatch>)
    ensures
        r.deep_view() == matches_in(dirs.deep_view(), name@, output@, candidates.deep_view()),
{
    let ghost all = dirs.deep_view();
    let mut r: Vec<PathMatch> = Vec::new();
    let mut i: usize = 0;
    assert(r.deep_view() =~= matches_in(all.take(0), name@, output@, candidates.deep_view()));
    while i < dirs.len()
        invariant
            i <= dirs@.len(),
            all == dirs.deep_view(),
            all.len() == dirs@.len(),
            r.deep_view() == matches_in(
                all.take(i as int),
                name@,
                output@,
                candidates.deep_view(),
            ),
        decreases dirs@.len() - i,
    {
        assert(all.take(i + 1).drop_last() =~= all.take(i as int));
        assert(all.take(i + 1).last() == dirs@[i as int]@);
        let path = join(dirs[i].as_str(), name);
        if let Some(found) = find_candidate(candidates, path.as_str()) {
            let ghost before = r.deep_view();
            let resolved = found.resolved.copied();
            let points_to_output = match &resolved {
                Some(resolved) => path_starts_with(resolved.as_str(), output),
                None => false,
            };
            let entry = PathMatch { name: name.to_owned(), path, resolved, points_to_output };
            r.push(entry);
            assert(r.deep_view() =~= before.push(entry.deep_view()));
        }
        i += 1;
    }
    assert(all.take(all.len() as int) =~= all);
    r
}

/// The commands in `PATH` that have the name of one of the executables.
pub open spec fn all_matches(
    executables: Seq<Text>,
    dirs: Seq<Text>,
    output: Text,
    candidates: Seq<CandidateView>,
) -> Seq<MatchView>
    decreases executables.len(),
{
    if executables.len() == 0 {
        Seq::empty()
    } else {
        let front = all_matches(executables.drop_last(), dirs, output, candidates);
        match paths::last_name(executables.last()) {
            None => front,
            Some(name) => front + matches_in(dirs, name, output, candidates),
        }
    }
}

fn find_all_matches(
    executables: &Vec<String>,
    dirs: &Vec<String>,
    output: &str,
    candidates: &Vec<Candidate>,
) -> (r: Vec<PathMatch>)
    ensures
        r.deep_view() == all_matches(
            executables.deep_view(),
            dirs.deep_view(),
            output@,
            candidates.deep_view(),
        ),
{
    let ghost all = executables.deep_view();
    let ghost places = dirs.deep_view();
    let ghost known = candidates.deep_view();
    let mut r: Vec<PathMatch> = Vec::new();
    let mut i: usize = 0;
    assert(r.deep_view() =~= all_matches(all.take(0), places, output@, known));
    while i < executables.len()
        invariant
            i <= executables@.len(),
            all == executables.deep_view(),
            all.len() == executables@.len(),
            places == dirs.deep_view(),
            known == candidates.deep_view(),
            r.deep_view() == all_matches(all.take(i as int), places, output@, known),
        decreases executables@.len() - i,
    {
        assert(all.take(i + 1).drop_last() =~= all.take(i as int));
        assert(all.take(i + 1).last() == executables@[i as int]@);
        if let Some(name) = file_name(executables[i].as_str()) {
            let ghost before = r.deep_view();
            let mut more = find_path_matches(dirs, name.as_str(), output, candidates);
            let ghost added = more.deep_view();
            r.append(&mut more);
            assert(r.deep_view() =~= before + added);
        }
        i += 1;
    }
    assert(all.take(all.len() as int) =~= all);
    r
}

pub open spec fn any_points_to_output(matches: Seq<MatchView>) -> bool {
    exists|i: int| 0 <= i < matches.len() && (#[trigger] matches[i]).points_to_output
}

fn some_point_to_output(matches: &Vec<PathMatch>) -> (r: bool)
    ensures
        r == any_points_to_output(matches.deep_view()),
{
    let ghost all = matches.deep_view();
    let mut i: usize = 0;
    while i < matches.len()
        invariant
            i <= matches@.len(),
            all == matches.deep_view(),
            all.len() == matches@.len(),
            forall|j: int| 0 <= j < i ==> !(#[trigger] all[j]).points_to_output,
        decreases matches@.len() - i,
    {
        assert(all[i as int] == matches@[i as int].deep_view());
        if matches[i].points_to_output {
            return true;
        }
        i += 1;
    }
    false
}

/// The target that links an output's executables.
pub open spec fn shim_target(executables: Seq<Text>, matches: Seq<MatchView>) -> TargetView {
    TargetView {
        id: "path-shim"@,
        kind: "path-shim"@,
        confidence: if any_points_to_output(matches) {
            "high"@
        } else if matches.len() == 0 {
            "low"@
        } else {
            "medium"@
        },
        supported: true,
        active: false,
        evidence: seq![
            "output has "@ + number::decimal(executables.len()) + " executable(s) in bin/"@,
            if matches.len() == 0 {
                "no matching executable currently found in PATH"@
            } else {
                number::decimal(matches.len()) + " matching PATH entr"@ + (if matches.len() == 1 {
                    "y"@
                } else {
                    "ies"@
                }) + " found"@
            },
        ],
        details: DetailsView::PathShim { executables, path_matches: matches },
    }
}

/// The target that an output's bin directory makes, if it holds executables.
pub open spec fn shim_in(facts: OutputFacts) -> Result<Option<TargetView>, Text> {
    match facts.bin {
        None => Ok(None),
        Some(bin) => match directory::executables_in(
            paths::joined(facts.output@, "bin"@),
            bin.deep_view(),
        ) {
            Err(problem) => Err(problem),
            Ok(executables) => if executables.len() == 0 {
                Ok(None)
            } else {
                Ok(
                    Some(
                        shim_target(
                            executables,
                            all_matches(
                                executables,
                                text::pieces(facts.path@, ':'),
                                facts.output@,
                                facts.candidates.deep_view(),
                            ),
                        ),
                    ),
                )
            },
        },
    }
}

fn discover_path_shim(facts: &OutputFacts) -> (r: Result<Option<ActivationTarget>, Error>)
    ensures
        text::outcome(r) == shim_in(*facts),
{
    let bin = match &facts.bin {
        Some(bin) => bin,
        None => {
            return Ok(None);
        },
    };
    let bin_dir = join(facts.output.as_str(), "bin");
    let executables = match executable_entries(bin_dir.as_str(), bin) {
        Ok(executables) => executables,
        Err(error) => {
            return Err(error);
        },
    };
    if executables.len() == 0 {
        return Ok(None);
    }
    let dirs = split(facts.path.as_str(), ':');
    let path_matches = find_all_matches(
        &executables,
        &dirs,
        facts.output.as_str(),
        &facts.candidates,
    );
    let count = path_matches.len();
    let confidence = if some_point_to_output(&path_matches) {
        "high"
    } else if count == 0 {
        "low"
    } else {
        "medium"
    };
    let mut evidence: Vec<String> = Vec::new();
    push_line(
        &mut evidence,
        cat3("output has ", usize_text(executables.len()).as_str(), " executable(s) in bin/"),
    );
    if count == 0 {
        push_line(&mut evidence, "no matching executable currently found in PATH".to_owned());
    } else {
        let ending = if count == 1 {
            "y"
        } else {
            "ies"
        };
        push_line(
            &mut evidence,
            cat4(usize_text(count).as_str(), " matching PATH entr", ending, " found"),
        );
    }
    let target = ActivationTarget {
        id: "path-shim".to_owned(),
        kind: "path-shim".to_owned(),
        confidence: confidence.to_owned(),
        supported: true,
        active: false,
        evidence,
        details: TargetDetails::PathShim { executables, path_matches },
    };
    proof {
        let expected = shim_target(executables.deep_view(), path_matches.deep_view());
        assert(target.deep_view().evidence =~= expected.evidence);
        assert(target.deep_view() == expected);
    }
    Ok(Some(target))
}

/// Where a command of a name may be in the directories.
pub open spec fn places_in(dirs: Seq<Text>, name: Text) -> Seq<Text> {
    dirs.map_values(|dir: Text| paths::joined(dir, name))
}

/// Where the commands of the executables' names may be.
pub open spec fn candidate_places(executables: Seq<Text>, dirs: Seq<Text>) -> Seq<Text>
    decreases executables.len(),
{
    if executables.len() == 0 {
        Seq::empty()
    } else {
        let front = candidate_places(executables.drop_last(), dirs);
        match paths::last_name(executables.last()) {
            None => front,
            Some(name) => front + places_in(dirs, name),
        }
    }
}

/// The paths on the search path that count for an output's bin directory.
pub open spec fn candidates_of(output: Text, bin: Option<DirRead>, path: Text) -> Seq<Text> {
    match bin {
        None => Seq::empty(),
        Some(bin) => match directory::executables_in(
            paths::joined(output, "bin"@),
            bin.deep_view(),
        ) {
            Err(_) => Seq::empty(),
            Ok(executables) => candidate_places(executables, text::pieces(path, ':')),
        },
    }
}

fn push_places(dirs: &Vec<String>, name: &str, r: &mut Vec<String>)
    ensures
        final(r).deep_view() == old(r).deep_view() + places_in(dirs.deep_view(), name@),
{
    let ghost all = places_in(dirs.deep_view(), name@);
    let ghost head = r.deep_view();
    let mut i: usize = 0;
    assert(r.deep_view() =~= head + all.take(0));
    while i < dirs.len()
        invariant
            i <= dirs@.len(),
            all == places_in(dirs.deep_view(), name@),
            all.len() == dirs@.len(),
            r.deep_view() == head + all.take(i as int),
        decreases dirs@.len() - i,
    {
        assert(all[i as int] == paths::joined(dirs@[i as int]@, name@));
        push_line(r, join(dirs[i].as_str(), name));
        assert(r.deep_view() =~= head + all.take(i + 1));
        i += 1;
    }
    assert(all.take(all.len() as int) =~= all);
}

/// The paths of which the facts about an output have to tell whether anything is there: what
/// has the name of one of its executables, in the directories of the search path.
pub fn candidate_paths(output: &str, bin: &Option<DirRead>, path: &str) -> (r: Vec<String>)
    ensures
        r.deep_view() == candidates_of(output@, *bin, path@),
{
    let mut r: Vec<String> = Vec::new();
    assert(r.deep_view() =~= Seq::empty());
    let bin = match bin {
        Some(bin) => bin,
        None => {
            return r;
        },
    };
    let executables = match executable_entries(join(output, "bin").as_str(), bin) {
        Ok(executables) => executables,
        Err(_) => {
            return r;
        },
    };
    let dirs = split(path, ':');
    let ghost all = executables.deep_view();
    let ghost places = dirs.deep_view();
    let mut i: usize = 0;
    assert(r.deep_view() =~= candidate_places(all.take(0), places));
    while i < executables.len()
        invariant
            i <= executables@.len(),
            all == executables.deep_view(),
            all.len() == executables@.len(),
            places == dirs.deep_view(),
            r.deep_view() == candidate_places(all.take(i as int), places),
        decreases executables@.len() - i,
    {
        assert(all.take(i + 1).drop_last() =~= all.take(i as int));
        assert(all.take(i + 1).last() == executables@[i as int]@);
        if let Some(name) = file_name(executables[i].as_str()) {
            push_places(&dirs, name.as_str(), &mut r);
        }
        i += 1;
    }
    assert(all.take(all.len() as int) =~= all);
    r
}

/// Whether two lists of candidates tell the same of each of the paths.
pub open spec fn candidates_alike(
    a: Seq<CandidateView>,
    b: Seq<CandidateView>,
    places: Seq<Text>,
) -> bool {
    forall|path: Text| #[trigger]
        places.contains(path) ==> candidate_at(a, path) == candidate_at(b, path)
}

proof fn lemma_matches_alike(
    dirs: Seq<Text>,
    name: Text,
    output: Text,
    a: Seq<CandidateView>,
    b: Seq<CandidateView>,
)
    requires
        candidates_alike(a, b, places_in(dirs, name)),
    ensures
        matches_in(dirs, name, output, a) == matches_in(dirs, name, output, b),
    decreases dirs.len(),
{
    if dirs.len() > 0 {
        let front = dirs.drop_last();
        let all = places_in(dirs, name);
        let some = places_in(front, name);
        assert forall|path: Text| #[trigger] some.contains(path) implies candidate_at(a, path)
            == candidate_at(b, path) by {
            let k = choose|k: int| 0 <= k < some.len() && some[k] == path;
            assert(all[k] == path);
            assert(all.contains(path));
        }
        lemma_matches_alike(front, name, output, a, b);
        assert(all[dirs.len() - 1] == paths::joined(dirs.last(), name));
        assert(all.contains(paths::joined(dirs.last(), name)));
    }
}

proof fn lemma_all_matches_alike(
    executables: Seq<Text>,
    dirs: Seq<Text>,
    output: Text,
    a: Seq<CandidateView>,
    b: Seq<CandidateView>,
)
    requires
        candidates_alike(a, b, candidate_places(executables, dirs)),
    ensures
        all_matches(executables, dirs, output, a) == all_matches(executables, dirs, output, b),
    decreases executables.len(),
{
    if executables.len() > 0 {
        let front = candidate_places(executables.drop_last(), dirs);
        let all = candidate_places(executables, dirs);
        assert forall|path: Text| #[trigger] front.contains(path) implies candidate_at(a, path)
            == candidate_at(b, path) by {
            let k = choose|k: int| 0 <= k < front.len() && front[k] == path;
            assert(all[k] == path);
            assert(all.contains(path));
        }
        lemma_all_matches_alike(executables.drop_last(), dirs, output, a, b);
        if let Some(name) = paths::last_name(executables.last()) {
            let more = places_in(dirs, name);
            assert forall|path: Text| #[trigger] more.contains(path) implies candidate_at(a, path)
                == candidate_at(b, path) by {
                let k = choose|k: int| 0 <= k < more.len() && more[k] == path;
                assert(all[front.len() + k] == path);
                assert(all.contains(path));
            }
            lemma_matches_alike(dirs, name, output, a, b);
        }
    }
}

/// Of the entries on the search path, those that were to be looked at alone decide what is
/// found of an output.
pub proof fn the_candidates_decide(facts: OutputFacts, candidates: Vec<Candidate>)
    requires
        candidates_alike(
            facts.candidates.deep_view(),
            candidates.deep_view(),
            candidates_of(facts.output@, facts.bin, facts.path@),
        ),
    ensures
        report_of(facts) == report_of(OutputFacts { candidates, ..facts }),
{
    if let Some(bin) = facts.bin {
        let bin_dir = paths::joined(facts.output@, "bin"@);
        if let Ok(executables) = directory::executables_in(bin_dir, bin.deep_view()) {
            lemma_all_matches_alike(
                executables,
                text::pieces(facts.path@, ':'),
                facts.output@,
                facts.candidates.deep_view(),
                candidates.deep_view(),
            );
        }
    }
    assert(shim_in(facts) == shim_in(OutputFacts { candidates, ..facts }));
    assert(dbus_in(facts) == dbus_in(OutputFacts { candidates, ..facts }));
    if let Ok(dbus) = dbus_in(facts) {
        assert(all_units(facts, dbus) == all_units(OutputFacts { candidates, ..facts }, dbus));
    }
}

// ---- D-Bus services

struct DbusServiceInfo {
    name: String,
    service_file: String,
    command: Option<String>,
    systemd_service: Option<String>,
}

pub struct DbusView {
    pub name: Text,
    pub service_file: Text,
    pub command: Option<Text>,
    pub systemd_service: Option<Text>,
}

impl DeepView for DbusServiceInfo {
    type V = DbusView;

    closed spec fn deep_view(&self) -> DbusView {
        DbusView {
            name: self.name@,
            service_file: self.service_file@,
            command: self.command.deep_view(),
            systemd_service: self.systemd_service.deep_view(),
        }
    }
}

/// The properties of a service file, or why it cannot be read.
pub open spec fn file_properties(entry: DirEntryView) -> Result<Seq<PropertyView>, Text> {
    match entry.text {
        Ok(contents) => Ok(ini::properties_in(contents)),
        Err(cause) => Err(directory::told("failed to read "@, entry.path, cause)),
    }
}

fn parse_ini_file(entry: &DirEntry) -> (r: Result<Vec<Property>, Error>)
    ensures
        text::outcome(r) == file_properties(entry.deep_view()),
{
    match &entry.text {
        ContentRead::Read { text } => Ok(parse_ini(text.as_str())),
        ContentRead::Failed { problem } => Err(
            tell("failed to read ", entry.path.as_str(), problem.as_str()),
        ),
    }
}

pub open spec fn is_service_file(path: Text) -> bool {
    paths::extension(path) == Some("service"@)
}

fn names_service_file(path: &str) -> (r: bool)
    ensures
        r == is_service_file(path@),
{
    match file_extension(path) {
        Some(extension) => same(extension.as_str(), "service"),
        None => false,
    }
}

/// What one entry of the directory of D-Bus services says, if it says anything.
pub open spec fn dbus_at(dir: Text, entry: Result<DirEntryView, Text>) -> Result<
    Option<DbusView>,
    Text,
> {
    match entry {
        Err(cause) => Err(directory::told("failed to read entry in "@, dir, cause)),
        Ok(entry) => if !is_service_file(entry.path) {
            Ok(None)
        } else {
            match file_properties(entry) {
                Err(problem) => Err(problem),
                Ok(values) => match ini::last_value(values, "D-BUS Service"@, "Name"@) {
                    None => Ok(None),
                    Some(name) => Ok(
                        Some(
                            DbusView {
                                name,
                                service_file: entry.path,
                                command: ini::last_value(values, "D-BUS Service"@, "Exec"@),
                                systemd_service: ini::last_value(
                                    values,
                                    "D-BUS Service"@,
                                    "SystemdService"@,
                                ),
                            },
                        ),
                    ),
                },
            }
        },
    }
}

fn read_dbus_entry(dir: &str, entry: &EntryRead) -> (r: Result<Option<DbusServiceInfo>, Error>)
    ensures
        text::outcome(r) == dbus_at(dir@, entry.deep_view()),
{
    let entry = match entry {
        EntryRead::Failed { cause } => {
            return Err(tell("failed to read entry in ", dir, cause.as_str()));
        },
        EntryRead::Entry { entry } => entry,
    };
    if !names_service_file(entry.path.as_str()) {
        return Ok(None);
    }
    let values = match parse_ini_file(entry) {
        Ok(values) => values,
        Err(error) => {
            return Err(error);
        },
    };
    let name = match last_nonempty_value(&values, "D-BUS Service", "Name") {
        Some(name) => name,
        None => {
            return Ok(None);
        },
    };
    Ok(
        Some(
            DbusServiceInfo {
                name,
                service_file: entry.path.clone(),
                command: last_nonempty_value(&values, "D-BUS Service", "Exec"),
                systemd_service: last_nonempty_value(&values, "D-BUS Service", "SystemdService"),
            },
        ),
    )
}

/// The D-Bus services among the entries, or the first failure.
pub open spec fn dbus_among(dir: Text, entries: Seq<Result<DirEntryView, Text>>) -> Result<
    Seq<DbusView>,
    Text,
>
    decreases entries.len(),
{
    if entries.len() == 0 {
        Ok(Seq::empty())
    } else {
        match dbus_among(dir, entries.drop_last()) {
            Err(problem) => Err(problem),
            Ok(front) => match dbus_at(dir, entries.last()) {
                Err(problem) => Err(problem),
                Ok(None) => Ok(front),
                Ok(Some(service)) => Ok(front.push(service)),
            },
        }
    }
}

pub open spec fn dbus_in(facts: OutputFacts) -> Result<Seq<DbusView>, Text> {
    let dir = paths::joined(facts.output@, "share/dbus-1/services"@);
    match facts.dbus {
        None => Ok(Seq::empty()),
        Some(read) => match read.deep_view() {
            Err(cause) => Err(directory::told("failed to read "@, dir, cause)),
            Ok(entries) => dbus_among(dir, entries),
        },
    }
}

proof fn lemma_dbus_stops(dir: Text, entries: Seq<Result<DirEntryView, Text>>, i: int)
    requires
        0 <= i <= entries.len(),
        dbus_among(dir, entries.take(i)) is Err,
    ensures
        dbus_among(dir, entries) == dbus_among(dir, entries.take(i)),
    decreases entries.len(),
{
    if i < entries.len() {
        assert(entries.drop_last().take(i) =~= entries.take(i));
        lemma_dbus_stops(dir, entries.drop_last(), i);
    } else {
        assert(entries.take(i) =~= entries);
    }
}

fn discover_dbus_services(facts: &OutputFacts) -> (r: Result<Vec<DbusServiceInfo>, Error>)
    ensures
        text::outcome(r) == dbus_in(*facts),
{
    let mut found: Vec<DbusServiceInfo> = Vec::new();
    assert(found.deep_view() =~= Seq::empty());
    let read = match &facts.dbus {
        Some(read) => read,
        None => {
            return Ok(found);
        },
    };
    let dir = join(facts.output.as_str(), "share/dbus-1/services");
    let entries = match read {
        DirRead::Failed { cause } => {
            return Err(tell("failed to read ", dir.as_str(), cause.as_str()));
        },
        DirRead::Listed { entries } => entries,
    };
    let ghost all = entries.deep_view();
    let mut i: usize = 0;
    while i < entries.len()
        invariant
            i <= entries@.len(),
            all == entries.deep_view(),
            all.len() == entries@.len(),
            dbus_in(*facts) == dbus_among(dir@, all),
            dbus_among(dir@, all.take(i as int)) == Ok::<Seq<DbusView>, Text>(found.deep_view()),
        decreases entries@.len() - i,
    {
        assert(all.take(i + 1).drop_last() =~= all.take(i as int));
        assert(all.take(i + 1).last() == entries@[i as int].deep_view());
        match read_dbus_entry(dir.as_str(), &entries[i]) {
            Err(error) => {
                proof {
                    lemma_dbus_stops(dir@, all, i + 1);
                }
                return Err(error);
            },
            Ok(service) => {
                if let Some(service) = service {
                    let ghost before = found.deep_view();
                    found.push(service);
                    assert(found.deep_view() =~= before.push(service.deep_view()));
                }
            },
        }
        i += 1;
    }
    assert(all.take(all.len() as int) =~= all);
    Ok(found)
}

/// A line about an optional value.
pub open spec fn labelled(label: Text, value: Option<Text>) -> Seq<Text> {
    match value {
        Some(value) => seq![label + value],
        None => Seq::empty(),
    }
}

fn push_labelled(lines: &mut Vec<String>, label: &str, value: &Option<String>)
    ensures
        final(lines).deep_view() == old(lines).deep_view() + labelled(label@, value.deep_view()),
{
    let ghost before = lines.deep_view();
    if let Some(value) = value {
        push_line(lines, cat2(label, value.as_str()));
    }
    assert(lines.deep_view() =~= before + labelled(label@, value.deep_view()));
}

pub open spec fn dbus_target_of(service: DbusView) -> TargetView {
    TargetView {
        id: "dbus-service:"@ + service.name,
        kind: "dbus-service"@,
        confidence: "high"@,
        supported: false,
        active: false,
        evidence: seq!["packaged D-Bus service: "@ + service.service_file] + labelled(
            "Exec="@,
            service.command,
        ) + labelled("SystemdService="@, service.systemd_service),
        details: DetailsView::DbusService {
            name: service.name,
            service_file: service.service_file,
            command: service.command,
            systemd_service: service.systemd_service,
        },
    }
}

fn dbus_target(service: &DbusServiceInfo) -> (r: ActivationTarget)
    ensures
        r.deep_view() == dbus_target_of(service.deep_view()),
{
    let mut evidence: Vec<String> = Vec::new();
    push_line(&mut evidence, cat2("packaged D-Bus service: ", service.service_file.as_str()));
    assert(evidence.deep_view() =~= seq!["packaged D-Bus service: "@ + service.service_file@]);
    push_labelled(&mut evidence, "Exec=", &service.command);
    push_labelled(&mut evidence, "SystemdService=", &service.systemd_service);
    ActivationTarget {
        id: cat2("dbus-service:", service.name.as_str()),
        kind: "dbus-service".to_owned(),
        confidence: "high".to_owned(),
        supported: false,
        active: false,
        evidence,
        details: TargetDetails::DbusService {
            name: service.name.clone(),
            service_file: service.service_file.clone(),
            command: service.command.copied(),
            systemd_service: service.systemd_service.copied(),
        },
    }
}

// ---- systemd user services

/// The D-Bus names that activate a service.
pub open spec fn names_for(services: Seq<DbusView>, service: Text) -> Seq<Text>
    decreases services.len(),
{
    if services.len() == 0 {
        Seq::empty()
    } else if services.last().systemd_service == Some(service) {
        names_for(services.drop_last(), service).push(services.last().name)
    } else {
        names_for(services.drop_last(), service)
    }
}

fn dbus_names_for(services: &Vec<DbusServiceInfo>, service: &str) -> (r: Vec<String>)
    ensures
        r.deep_view() == names_for(services.deep_view(), service@),
{
    let ghost all = services.deep_view();
    let mut r: Vec<String> = Vec::new();
    let mut i: usize = 0;
    assert(r.deep_view() =~= names_for(all.take(0), service@));
    while i < services.len()
        invariant
            i <= services@.len(),
            all == services.deep_view(),
            all.len() == services@.len(),
            r.deep_view() == names_for(all.take(i as int), service@),
        decreases services@.len() - i,
    {
        assert(all.take(i + 1).drop_last() =~= all.take(i as int));
        assert(all.take(i + 1).last() == services@[i as int].deep_view());
        if let Some(unit) = &services[i].systemd_service {
            if same(unit.as_str(), service) {
                push_line(&mut r, services[i].name.clone());
            }
        }
        i += 1;
    }
    assert(all.take(all.len() as int) =~= all);
    r
}

/// The lines that say which names activate a service.
pub open spec fn activation_lines(names: Seq<Text>, service: Text) -> Seq<Text> {
    names.map_values(
        |name: Text| "D-Bus service "@ + name + " activates "@ + service,
    )
}

fn push_activation_lines(lines: &mut Vec<String>, names: &Vec<String>, service: &str)
    ensures
        final(lines).deep_view() == old(lines).deep_view() + activation_lines(
            names.deep_view(),
            service@,
        ),
{
    let ghost before = lines.deep_view();
    let ghost all = activation_lines(names.deep_view(), service@);
    let mut i: usize = 0;
    assert(lines.deep_view() =~= before + all.take(0));
    while i < names.len()
        invariant
            i <= names@.len(),
            all == activation_lines(names.deep_view(), service@),
            all.len() == names@.len(),
            lines.deep_view() == before + all.take(i as int),
        decreases names@.len() - i,
    {
        assert(all[i as int] == "D-Bus service "@ + names@[i as int]@ + " activates "@ + service@);
        push_line(lines, cat4("D-Bus service ", names[i].as_str(), " activates ", service));
        assert(lines.deep_view() =~= before + all.take(i + 1));
        i += 1;
    }
    assert(all.take(all.len() as int) =~= all);
}

/// The target that a user service's file makes.
pub open spec fn unit_target(path: Text, service: Text, values: Seq<PropertyView>, dbus: Seq<DbusView>) -> TargetView {
    let exec_start = ini::last_value(values, "Service"@, "ExecStart"@);
    let executable = match exec_start {
        Some(line) => ini::executable_of(line),
        None => None,
    };
    let names = names_for(dbus, service);
    TargetView {
        id: "systemd-user:"@ + service,
        kind: "systemd-user-service"@,
        confidence: "high"@,
        supported: executable is Some,
        active: false,
        evidence: seq!["packaged user service: "@ + path] + labelled("ExecStart="@, exec_start)
            + labelled("BusName="@, ini::last_value(values, "Service"@, "BusName"@))
            + activation_lines(names, service),
        details: DetailsView::SystemdUserService {
            service,
            service_file: path,
            exec_start: text::or_empty(exec_start),
            executable,
            dbus_names: names,
        },
    }
}

fn read_unit(path: &String, service: String, values: &Vec<Property>, dbus: &Vec<DbusServiceInfo>) -> (r:
    ActivationTarget)
    ensures
        r.deep_view() == unit_target(path@, service@, values.deep_view(), dbus.deep_view()),
{
    let exec_start = last_nonempty_value(values, "Service", "ExecStart");
    let bus_name = last_nonempty_value(values, "Service", "BusName");
    let executable = match &exec_start {
        Some(line) => parse_exec_executable(line.as_str()),
        None => None,
    };
    let dbus_names = dbus_names_for(dbus, service.as_str());
    let mut evidence: Vec<String> = Vec::new();
    push_line(&mut evidence, cat2("packaged user service: ", path.as_str()));
    assert(evidence.deep_view() =~= seq!["packaged user service: "@ + path@]);
    push_labelled(&mut evidence, "ExecStart=", &exec_start);
    push_labelled(&mut evidence, "BusName=", &bus_name);
    push_activation_lines(&mut evidence, &dbus_names, service.as_str());
    let supported = executable.is_some();
    ActivationTarget {
        id: cat2("systemd-user:", service.as_str()),
        kind: "systemd-user-service".to_owned(),
        confidence: "high".to_owned(),
        supported,
        active: false,
        evidence,
        details: TargetDetails::SystemdUserService {
            service,
            service_file: path.clone(),
            exec_start: match exec_start {
                Some(line) => line,
                None => String::new(),
            },
            executable,
            dbus_names,
        },
    }
}

/// What one entry of a directory of user services makes, if it makes anything.
pub open spec fn unit_at(dir: Text, entry: Result<DirEntryView, Text>, dbus: Seq<DbusView>) -> Result<
    Option<TargetView>,
    Text,
> {
    match entry {
        Err(cause) => Err(directory::told("failed to read entry in "@, dir, cause)),
        Ok(entry) => if !is_service_file(entry.path) {
            Ok(None)
        } else {
            match paths::last_name(entry.path) {
                None => Err("service file has no file name: "@ + entry.path),
                Some(service) => match file_properties(entry) {
                    Err(problem) => Err(problem),
                    Ok(values) => Ok(Some(unit_target(entry.path, service, values, dbus))),
                },
            }
        },
    }
}

fn read_unit_entry(dir: &str, entry: &EntryRead, dbus: &Vec<DbusServiceInfo>) -> (r: Result<
    Option<ActivationTarget>,
    Error,
>)
    ensures
        text::outcome(r) == unit_at(dir@, entry.deep_view(), dbus.deep_view()),
{
    let entry = match entry {
        EntryRead::Failed { cause } => {
            return Err(tell("failed to read entry in ", dir, cause.as_str()));
        },
        EntryRead::Entry { entry } => entry,
    };
    if !names_service_file(entry.path.as_str()) {
        return Ok(None);
    }
    let service = match file_name(entry.path.as_str()) {
        Some(service) => service,
        None => {
            return Err(fail(cat2("service file has no file name: ", entry.path.as_str())));
        },
    };
    match parse_ini_file(entry) {
        Ok(values) => Ok(Some(read_unit(&entry.path, service, &values, dbus))),
        Err(error) => Err(error),
    }
}

/// The user services among the entries, or the first failure.
pub open spec fn units_among(
    dir: Text,
    entries: Seq<Result<DirEntryView, Text>>,
    dbus: Seq<DbusView>,
) -> Result<Seq<TargetView>, Text>
    decreases entries.len(),
{
    if entries.len() == 0 {
        Ok(Seq::empty())
    } else {
        match units_among(dir, entries.drop_last(), dbus) {
            Err(problem) => Err(problem),
            Ok(front) => match unit_at(dir, entries.last(), dbus) {
                Err(problem) => Err(problem),
                Ok(None) => Ok(front),
                Ok(Some(target)) => Ok(front.push(target)),
            },
        }
    }
}

pub open spec fn units_in(dir: Text, read: Option<DirRead>, dbus: Seq<DbusView>) -> Result<
    Seq<TargetView>,
    Text,
> {
    match read {
        None => Ok(Seq::empty()),
        Some(read) => match read.deep_view() {
            Err(cause) => Err(directory::told("failed to read "@, dir, cause)),
            Ok(entries) => units_among(dir, entries, dbus),
        },
    }
}

proof fn lemma_units_stop(
    dir: Text,
    entries: Seq<Result<DirEntryView, Text>>,
    dbus: Seq<DbusView>,
    i: int,
)
    requires
        0 <= i <= entries.len(),
        units_among(dir, entries.take(i), dbus) is Err,
    ensures
        units_among(dir, entries, dbus) == units_among(dir, entries.take(i), dbus),
    decreases entries.len(),
{
    if i < entries.len() {
        assert(entries.drop_last().take(i) =~= entries.take(i));
        lemma_units_stop(dir, entries.drop_last(), dbus, i);
    } else {
        assert(entries.take(i) =~= entries);
    }
}

fn discover_units(dir: &str, read: &Option<DirRead>, dbus: &Vec<DbusServiceInfo>) -> (r: Result<
    Vec<ActivationTarget>,
    Error,
>)
    ensures
        text::outcome(r) == units_in(dir@, *read, dbus.deep_view()),
{
    let mut found: Vec<ActivationTarget> = Vec::new();
    assert(found.deep_view() =~= Seq::empty());
    let entries = match read {
        None => {
            return Ok(found);
        },
        Some(DirRead::Failed { cause }) => {
            return Err(tell("failed to read ", dir, cause.as_str()));
        },
        Some(DirRead::Listed { entries }) => entries,
    };
    let ghost all = entries.deep_view();
    let ghost services = dbus.deep_view();
    let mut i: usize = 0;
    while i < entries.len()
        invariant
            i <= entries@.len(),
            all == entries.deep_view(),
            all.len() == entries@.len(),
            services == dbus.deep_view(),
            units_in(dir@, *read, services) == units_among(dir@, all, services),
            units_among(dir@, all.take(i as int), services) == Ok::<Seq<TargetView>, Text>(
                found.deep_view(),
            ),
        decreases entries@.len() - i,
    {
        assert(all.take(i + 1).drop_last() =~= all.take(i as int));
        assert(all.take(i + 1).last() == entries@[i as int].deep_view());
        match read_unit_entry(dir, &entries[i], dbus) {
            Err(error) => {
                proof {
                    lemma_units_stop(dir@, all, services, i + 1);
                }
                return Err(error);
            },
            Ok(target) => {
                if let Some(target) = target {
                    let ghost before = found.deep_view();
                    found.push(target);
                    assert(found.deep_view() =~= before.push(target.deep_view()));
                }
            },
        }
        i += 1;
    }
    assert(all.take(all.len() as int) =~= all);
    Ok(found)
}

/// The user services of an output: those under share, then those under lib.
pub open spec fn all_units(facts: OutputFacts, dbus: Seq<DbusView>) -> Result<Seq<TargetView>, Text> {
    match units_in(
        paths::joined(facts.output@, "share/systemd/user"@),
        facts.share_units,
        dbus,
    ) {
        Err(problem) => Err(problem),
        Ok(shared) => match units_in(
            paths::joined(facts.output@, "lib/systemd/user"@),
            facts.lib_units,
            dbus,
        ) {
            Err(problem) => Err(problem),
            Ok(more) => Ok(shared + more),
        },
    }
}

fn discover_systemd_user_services(facts: &OutputFacts, dbus: &Vec<DbusServiceInfo>) -> (r: Result<
    Vec<ActivationTarget>,
    Error,
>)
    ensures
        text::outcome(r) == all_units(*facts, dbus.deep_view()),
{
    let shared_dir = join(facts.output.as_str(), "share/systemd/user");
    let mut found = match discover_units(shared_dir.as_str(), &facts.share_units, dbus) {
        Ok(found) => found,
        Err(error) => {
            return Err(error);
        },
    };
    let lib_dir = join(facts.output.as_str(), "lib/systemd/user");
    let mut more = match discover_units(lib_dir.as_str(), &facts.lib_units, dbus) {
        Ok(more) => more,
        Err(error) => {
            return Err(error);
        },
    };
    let ghost before = found.deep_view();
    let ghost added = more.deep_view();
    found.append(&mut more);
    assert(found.deep_view() =~= before + added);
    Ok(found)
}

// ---- Everything together

/// Whether one of the targets is a user service of that name.
pub open spec fn has_unit(targets: Seq<TargetView>, service: Text) -> bool {
    exists|i: int|
        0 <= i < targets.len() && (match (#[trigger] targets[i]).details {
            DetailsView::SystemdUserService { service: name, .. } => name == service,
            _ => false,
        })
}

fn lists_unit(targets: &Vec<ActivationTarget>, service: &str) -> (r: bool)
    ensures
        r == has_unit(targets.deep_view(), service@),
{
    let ghost all = targets.deep_view();
    let mut i: usize = 0;
    while i < targets.len()
        invariant
            i <= targets@.len(),
            all == targets.deep_view(),
            all.len() == targets@.len(),
            forall|j: int|
                0 <= j < i ==> !(match (#[trigger] all[j]).details {
                    DetailsView::SystemdUserService { service: name, .. } => name == service@,
                    _ => false,
                }),
        decreases targets@.len() - i,
    {
        assert(all[i as int] == targets@[i as int].deep_view());
        if let TargetDetails::SystemdUserService { service: name, .. } = &targets[i].details {
            if same(name.as_str(), service) {
                assert(targets.deep_view()[i as int].details is SystemdUserService);
                return true;
            }
        }
        i += 1;
    }
    false
}

/// The targets of the D-Bus services that no user service stands for.
pub open spec fn loose_dbus(services: Seq<DbusView>, units: Seq<TargetView>) -> Seq<TargetView>
    decreases services.len(),
{
    if services.len() == 0 {
        Seq::empty()
    } else {
        let front = loose_dbus(services.drop_last(), units);
        match services.last().systemd_service {
            Some(service) => if has_unit(units, service) {
                front
            } else {
                front.push(dbus_target_of(services.last()))
            },
            None => front.push(dbus_target_of(services.last())),
        }
    }
}

fn loose_dbus_targets(services: &Vec<DbusServiceInfo>, units: &Vec<ActivationTarget>) -> (r: Vec<
    ActivationTarget,
>)
    ensures
        r.deep_view() == loose_dbus(services.deep_view(), units.deep_view()),
{
    let ghost all = services.deep_view();
    let ghost known = units.deep_view();
    let mut r: Vec<ActivationTarget> = Vec::new();
    let mut i: usize = 0;
    assert(r.deep_view() =~= loose_dbus(all.take(0), known));
    while i < services.len()
        invariant
            i <= services@.len(),
            all == services.deep_view(),
            all.len() == services@.len(),
            known == units.deep_view(),
            r.deep_view() == loose_dbus(all.take(i as int), known),
        decreases services@.len() - i,
    {
        assert(all.take(i + 1).drop_last() =~= all.take(i as int));
        assert(all.take(i + 1).last() == services@[i as int].deep_view());
        let backed = match &services[i].systemd_service {
            Some(service) => lists_unit(units, service.as_str()),
            None => false,
        };
        if !backed {
            let ghost before = r.deep_view();
            let target = dbus_target(&services[i]);
            r.push(target);
            assert(r.deep_view() =~= before.push(target.deep_view()));
        }
        i += 1;
    }
    assert(all.take(all.len() as int) =~= all);
    r
}

pub open spec fn has_id(targets: Seq<TargetView>, id: Text) -> bool {
    exists|i: int| 0 <= i < targets.len() && (#[trigger] targets[i]).id == id
}

/// The targets without those whose id came before.
pub open spec fn deduped(targets: Seq<TargetView>) -> Seq<TargetView>
    decreases targets.len(),
{
    if targets.len() == 0 {
        Seq::empty()
    } else {
        let front = deduped(targets.drop_last());
        if has_id(front, targets.last().id) {
            front
        } else {
            front.push(targets.last())
        }
    }
}

fn lists_id(targets: &Vec<ActivationTarget>, id: &str) -> (r: bool)
    ensures
        r == has_id(targets.deep_view(), id@),
{
    let ghost all = targets.deep_view();
    let mut i: usize = 0;
    while i < targets.len()
        invariant
            i <= targets@.len(),
            all == targets.deep_view(),
            all.len() == targets@.len(),
            forall|j: int| 0 <= j < i ==> (#[trigger] all[j]).id != id@,
        decreases targets@.len() - i,
    {
        assert(all[i as int] == targets@[i as int].deep_view());
        if same(targets[i].id.as_str(), id) {
            return true;
        }
        i += 1;
    }
    false
}

/// Drops the targets whose id came before.
pub fn dedupe_targets(targets: Vec<ActivationTarget>) -> (r: Vec<ActivationTarget>)
    ensures
        r.deep_view() == deduped(targets.deep_view()),
{
    let ghost all = targets.deep_view();
    let mut rest = targets;
    let mut r: Vec<ActivationTarget> = Vec::new();
    let ghost mut i: int = 0;
    assert(all.skip(0) =~= all);
    assert(r.deep_view() =~= deduped(all.take(0)));
    while rest.len() > 0
        invariant
            0 <= i <= all.len(),
            rest@.len() == all.len() - i,
            rest.deep_view() == all.skip(i),
            r.deep_view() == deduped(all.take(i)),
        decreases rest@.len(),
    {
        let ghost before = rest.deep_view();
        assert(before[0] == rest@[0].deep_view() && before[0] == all[i]);
        let target = rest.remove(0);
        proof {
            assert(rest.deep_view() =~= before.drop_first());
            assert(before.drop_first() =~= all.skip(i + 1));
            assert(all.take(i + 1).drop_last() =~= all.take(i));
            assert(all.take(i + 1).last() == target.deep_view());
        }
        if !lists_id(&r, target.id.as_str()) {
            let ghost kept = r.deep_view();
            r.push(target);
            assert(r.deep_view() =~= kept.push(target.deep_view()));
        }
        proof {
            i = i + 1;
        }
    }
    assert(all.take(i) =~= all);
    r
}

/// All that was found, before double ids are dropped.
pub open spec fn found_in(
    shim: Option<TargetView>,
    units: Seq<TargetView>,
    dbus: Seq<DbusView>,
) -> Seq<TargetView> {
    (match shim {
        Some(target) => seq![target],
        None => Seq::empty(),
    }) + units + loose_dbus(dbus, units)
}

/// What could be activated of an output, by id.
pub open spec fn report_of(facts: OutputFacts) -> Result<ReportView, Text> {
    match dbus_in(facts) {
        Err(problem) => Err(problem),
        Ok(dbus) => match shim_in(facts) {
            Err(problem) => Err(problem),
            Ok(shim) => match all_units(facts, dbus) {
                Err(problem) => Err(problem),
                Ok(units) => Ok(
                    ReportView {
                        output: facts.output@,
                        targets: order::sorted::<ActivationTarget>(
                            deduped(found_in(shim, units, dbus)),
                        ),
                    },
                ),
            },
        },
    }
}

/// Finds what could be activated of a build output.
pub fn discover(facts: &OutputFacts) -> (r: Result<TargetReport, Error>)
    ensures
        text::outcome(r) == report_of(*facts),
{
    let dbus = match discover_dbus_services(facts) {
        Ok(dbus) => dbus,
        Err(error) => {
            return Err(error);
        },
    };
    let shim = match discover_path_shim(facts) {
        Ok(shim) => shim,
        Err(error) => {
            return Err(error);
        },
    };
    let mut units = match discover_systemd_user_services(facts, &dbus) {
        Ok(units) => units,
        Err(error) => {
            return Err(error);
        },
    };
    let mut loose = loose_dbus_targets(&dbus, &units);
    let mut targets: Vec<ActivationTarget> = Vec::new();
    let ghost first = shim.deep_view();
    let ghost second = units.deep_view();
    let ghost third = loose.deep_view();
    if let Some(target) = shim {
        targets.push(target);
    }
    targets.append(&mut units);
    targets.append(&mut loose);
    assert(targets.deep_view() =~= found_in(first, second, dbus.deep_view()));
    Ok(
        TargetReport {
            output: facts.output.clone(),
            targets: sort(dedupe_targets(targets)),
        },
    )
}

/// What overriding a user service takes.
pub open spec fn service_spec_of(target: TargetView) -> Result<ServiceSpecView, Text> {
    match target.details {
        DetailsView::SystemdUserService {
            service,
            service_file,
            exec_start,
            executable,
            ..
        } => Ok(ServiceSpecView { service, service_file, exec_start, executable }),
        _ => Err("target is not a systemd user service: "@ + target.id),
    }
}

pub fn systemd_user_service_spec(target: &ActivationTarget) -> (r: Result<
    SystemdUserServiceSpec,
    Error,
>)
    ensures
        text::outcome(r) == service_spec_of(target.deep_view()),
{
    match &target.details {
        TargetDetails::SystemdUserService {
            service,
            service_file,
            exec_start,
            executable,
            ..
        } => Ok(
            SystemdUserServiceSpec {
                service: service.clone(),
                service_file: service_file.clone(),
                exec_start: exec_start.clone(),
                executable: executable.copied(),
            },
        ),
        _ => Err(fail(cat2("target is not a systemd user service: ", target.id.as_str()))),
    }
}

// ---- Laws

pub open spec fn distinct_ids(targets: Seq<TargetView>) -> bool {
    forall|i: int, j: int|
        0 <= i < j < targets.len() ==> (#[trigger] targets[i]).id != (#[trigger] targets[j]).id
}

proof fn lemma_push_id(targets: Seq<TargetView>, x: TargetView, id: Text)
    ensures
        has_id(targets.push(x), id) == (has_id(targets, id) || x.id == id),
{
    let more = targets.push(x);
    if has_id(targets, id) {
        let i = choose|i: int| 0 <= i < targets.len() && (#[trigger] targets[i]).id == id;
        assert(more[i].id == id);
    }
    if x.id == id {
        assert(more[targets.len() as int].id == id);
    }
    if has_id(more, id) {
        let i = choose|i: int| 0 <= i < more.len() && (#[trigger] more[i]).id == id;
        if i < targets.len() {
            assert(targets[i].id == id);
        }
    }
}

proof fn lemma_push_distinct(targets: Seq<TargetView>, x: TargetView)
    requires
        distinct_ids(targets),
        !has_id(targets, x.id),
    ensures
        distinct_ids(targets.push(x)),
{
    let more = targets.push(x);
    assert forall|i: int, j: int| 0 <= i < j < more.len() implies (#[trigger] more[i]).id != (
    #[trigger] more[j]).id by {
        assert(targets[i].id == more[i].id);
    }
}

proof fn lemma_deduped_distinct(targets: Seq<TargetView>)
    ensures
        distinct_ids(deduped(targets)),
    decreases targets.len(),
{
    if targets.len() > 0 {
        lemma_deduped_distinct(targets.drop_last());
        let front = deduped(targets.drop_last());
        if !has_id(front, targets.last().id) {
            lemma_push_distinct(front, targets.last());
        }
    }
}

proof fn lemma_inserted_distinct(targets: Seq<TargetView>, x: TargetView)
    requires
        distinct_ids(targets),
        !has_id(targets, x.id),
    ensures
        distinct_ids(order::inserted::<ActivationTarget>(targets, x)),
        forall|id: Text| #[trigger]
            has_id(order::inserted::<ActivationTarget>(targets, x), id) == (has_id(targets, id)
                || x.id == id),
    decreases targets.len(),
{
    let whole = order::inserted::<ActivationTarget>(targets, x);
    if targets.len() > 0 && !<ActivationTarget as Ranked>::le(targets.last(), x) {
        let front = targets.drop_last();
        let last = targets.last();
        assert(targets =~= front.push(last));
        assert(!has_id(front, x.id)) by {
            lemma_push_id(front, last, x.id);
        }
        assert(distinct_ids(front));
        lemma_inserted_distinct(front, x);
        let part = order::inserted::<ActivationTarget>(front, x);
        assert(!has_id(front, last.id)) by {
            if has_id(front, last.id) {
                let i = choose|i: int| 0 <= i < front.len() && (#[trigger] front[i]).id == last.id;
                assert(targets[i].id == targets[targets.len() - 1].id);
            }
        }
        assert(last.id != x.id) by {
            lemma_push_id(front, last, x.id);
        }
        assert(!has_id(part, last.id));
        lemma_push_distinct(part, last);
        assert forall|id: Text| #[trigger] has_id(whole, id) == (has_id(targets, id) || x.id == id) by {
            lemma_push_id(part, last, id);
            lemma_push_id(front, last, id);
        }
    } else {
        lemma_push_distinct(targets, x);
        assert forall|id: Text| #[trigger] has_id(whole, id) == (has_id(targets, id) || x.id == id) by {
            lemma_push_id(targets, x, id);
        }
    }
}

proof fn lemma_sorted_distinct(targets: Seq<TargetView>)
    requires
        distinct_ids(targets),
    ensures
        distinct_ids(order::sorted::<ActivationTarget>(targets)),
        forall|id: Text| #[trigger]
            has_id(order::sorted::<ActivationTarget>(targets), id) == has_id(targets, id),
    decreases targets.len(),
{
    if targets.len() > 0 {
        let front = targets.drop_last();
        let last = targets.last();
        assert(targets =~= front.push(last));
        assert(distinct_ids(front));
        lemma_sorted_distinct(front);
        assert(!has_id(front, last.id)) by {
            if has_id(front, last.id) {
                let i = choose|i: int| 0 <= i < front.len() && (#[trigger] front[i]).id == last.id;
                assert(targets[i].id == targets[targets.len() - 1].id);
            }
        }
        lemma_inserted_distinct(order::sorted::<ActivationTarget>(front), last);
        assert forall|id: Text| #[trigger]
            has_id(order::sorted::<ActivationTarget>(targets), id) == has_id(targets, id) by {
            lemma_push_id(front, last, id);
        }
    }
}

/// Whether the target at a position is the first with its id.
pub open spec fn is_first(targets: Seq<TargetView>, i: int) -> bool {
    0 <= i < targets.len() && !has_id(targets.take(i), targets[i].id)
}

/// Whether `kept` are the first targets with each id, in their order, at the positions `at`.
pub open spec fn are_the_firsts(
    kept: Seq<TargetView>,
    targets: Seq<TargetView>,
    at: Seq<int>,
) -> bool {
    &&& at.len() == kept.len()
    &&& forall|k: int|
        0 <= k < at.len() ==> is_first(targets, #[trigger] at[k]) && kept[k] == targets[at[k]]
    &&& forall|j: int, k: int| 0 <= j < k < at.len() ==> #[trigger] at[j] < #[trigger] at[k]
    &&& forall|i: int| #[trigger] is_first(targets, i) ==> at.contains(i)
}

proof fn lemma_first_before(targets: Seq<TargetView>, i: int)
    requires
        targets.len() > 0,
        i < targets.len() - 1,
    ensures
        is_first(targets, i) == is_first(targets.drop_last(), i),
{
    if 0 <= i {
        assert(targets.drop_last().take(i) =~= targets.take(i));
    }
}

proof fn lemma_deduped_firsts(targets: Seq<TargetView>) -> (at: Seq<int>)
    ensures
        are_the_firsts(deduped(targets), targets, at),
        forall|id: Text| #[trigger] has_id(deduped(targets), id) == has_id(targets, id),
    decreases targets.len(),
{
    if targets.len() == 0 {
        Seq::empty()
    } else {
        let front = targets.drop_last();
        let last = targets.len() - 1;
        let before = lemma_deduped_firsts(front);
        assert(targets.take(last) =~= front);
        assert(targets =~= front.push(targets.last()));
        assert forall|id: Text| #[trigger] has_id(deduped(targets), id) == has_id(
            targets,
            id,
        ) by {
            lemma_push_id(front, targets.last(), id);
            lemma_push_id(deduped(front), targets.last(), id);
        }
        let at = if is_first(targets, last) {
            before.push(last)
        } else {
            before
        };
        assert forall|k: int| 0 <= k < at.len() implies is_first(targets, #[trigger] at[k])
            && deduped(targets)[k] == targets[at[k]] by {
            if k < before.len() {
                assert(is_first(front, before[k]));
                lemma_first_before(targets, before[k]);
            }
        }
        assert forall|j: int, k: int| 0 <= j < k < at.len() implies #[trigger] at[j]
            < #[trigger] at[k] by {
            assert(is_first(front, before[j]));
        }
        assert forall|i: int| #[trigger] is_first(targets, i) implies at.contains(i) by {
            if i < last {
                lemma_first_before(targets, i);
                assert(before.contains(i));
                let k = choose|k: int| 0 <= k < before.len() && before[k] == i;
                assert(at[k] == i);
            } else {
                assert(at[before.len() as int] == i);
            }
        }
        at
    }
}

proof fn lemma_distinct_stay(targets: Seq<TargetView>)
    requires
        distinct_ids(targets),
    ensures
        deduped(targets) == targets,
    decreases targets.len(),
{
    if targets.len() > 0 {
        let front = targets.drop_last();
        assert(distinct_ids(front));
        lemma_distinct_stay(front);
        if has_id(front, targets.last().id) {
            let i = choose|i: int|
                0 <= i < front.len() && (#[trigger] front[i]).id == targets.last().id;
            assert(targets[i].id == targets[targets.len() - 1].id);
        }
        assert(targets =~= front.push(targets.last()));
    } else {
        assert(targets =~= deduped(targets));
    }
}

/// Dropping repeated targets keeps the first with each id, unchanged and in order, and
/// nothing else: every id stays, none stays twice, and dropping them again changes nothing.
pub proof fn the_first_of_each_id_is_kept(targets: Seq<TargetView>)
    ensures
        exists|at: Seq<int>| are_the_firsts(deduped(targets), targets, at),
        distinct_ids(deduped(targets)),
        forall|id: Text| #[trigger] has_id(deduped(targets), id) == has_id(targets, id),
        deduped(deduped(targets)) == deduped(targets),
{
    let at = lemma_deduped_firsts(targets);
    assert(are_the_firsts(deduped(targets), targets, at));
    lemma_deduped_distinct(targets);
    lemma_distinct_stay(deduped(targets));
}

/// A report names every id once, in order.
pub proof fn reported_ids_are_distinct_and_in_order(facts: OutputFacts)
    requires
        report_of(facts) is Ok,
    ensures
        distinct_ids(report_of(facts)->Ok_0.targets),
        order::in_order::<ActivationTarget>(report_of(facts)->Ok_0.targets),
{
    let dbus = dbus_in(facts)->Ok_0;
    let found = found_in(shim_in(facts)->Ok_0, all_units(facts, dbus)->Ok_0, dbus);
    lemma_deduped_distinct(found);
    lemma_sorted_distinct(deduped(found));
    order::sorting_orders_and_keeps::<ActivationTarget>(deduped(found));
}

} // verus!
