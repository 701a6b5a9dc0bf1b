//! The ways to activate a fork, and choosing one.
use vstd::prelude::*;

use crate::paths::{self, path_starts_with};
use crate::targets::{
    self, discover, systemd_user_service_spec, ActivationTarget, DetailsView, OutputFacts,
    ReportView, SystemdUserServiceSpec, TargetDetails, TargetReport, TargetView,
};
use crate::text::{
    self, ascii_alphanumeric, cat2, cat3, chars_of, fail, join as join_lines, push_line, same, Error, Text,
};

verus! {

#[derive(Debug, Clone, Copy, PartialEq, Eq, Structural)]
pub enum ActivationBackend {
    Auto,
    NixProfile,
    NixosModule,
    HomeManagerModule,
    PathShim,
    SystemdUserService,
}

impl DeepView for ActivationBackend {
    type V = ActivationBackend;

    open spec fn deep_view(&self) -> ActivationBackend {
        *self
    }
}

// ---- Choosing

pub open spec fn is_service(details: DetailsView) -> bool {
    details is SystemdUserService || details is DbusService
}

/// Whether one of the targets is a service.
pub open spec fn any_service(found: Seq<TargetView>) -> bool {
    exists|i: int| 0 <= i < found.len() && is_service((#[trigger] found[i]).details)
}

pub(crate) fn has_service(report: &TargetReport) -> (r: bool)
    ensures
        r == any_service(report.deep_view().targets),
{
    let ghost all = report.deep_view().targets;
    let mut i: usize = 0;
    while i < report.targets.len()
        invariant
            i <= report.targets@.len(),
            all == report.deep_view().targets,
            all.len() == report.targets@.len(),
            forall|j: int| 0 <= j < i ==> !is_service((#[trigger] all[j]).details),
        decreases report.targets@.len() - i,
    {
        assert(all[i as int] == report.targets@[i as int].deep_view());
        let service = match &report.targets[i].details {
            TargetDetails::PathShim { .. } => false,
            _ => true,
        };
        if service {
            assert(is_service(report.deep_view().targets[i as int].details));
            return true;
        }
        i += 1;
    }
    false
}

/// Whether an output holds services.
pub open spec fn service_managed(facts: OutputFacts) -> Result<bool, Text> {
    match targets::report_of(facts) {
        Err(problem) => Err(problem),
        Ok(report) => Ok(any_service(report.targets)),
    }
}

pub fn output_looks_service_managed(facts: &OutputFacts) -> (r: Result<bool, Error>)
    ensures
        text::outcome(r) == service_managed(*facts),
{
    match discover(facts) {
        Ok(report) => Ok(has_service(&report)),
        Err(error) => Err(error),
    }
}

/// The backend that is asked for; where that is left open, a module on NixOS for what
/// holds services, and a profile for all else.
pub open spec fn selected(requested: ActivationBackend, is_nixos: bool, facts: OutputFacts) -> Result<
    ActivationBackend,
    Text,
> {
    if requested != ActivationBackend::Auto {
        Ok(requested)
    } else if !is_nixos {
        Ok(ActivationBackend::NixProfile)
    } else {
        match service_managed(facts) {
            Err(problem) => Err(problem),
            Ok(true) => Ok(ActivationBackend::NixosModule),
            Ok(false) => Ok(ActivationBackend::NixProfile),
        }
    }
}

pub fn select_backend(requested: ActivationBackend, is_nixos: bool, facts: &OutputFacts) -> (r: Result<
    ActivationBackend,
    Error,
>)
    ensures
        text::outcome(r) == selected(requested, is_nixos, *facts),
{
    if requested != ActivationBackend::Auto {
        return Ok(requested);
    }
    if is_nixos {
        match output_looks_service_managed(facts) {
            Err(error) => {
                return Err(error);
            },
            Ok(managed) => {
                if managed {
                    return Ok(ActivationBackend::NixosModule);
                }
            },
        }
    }
    Ok(ActivationBackend::NixProfile)
}

/// A backend that was selected is never left open.
pub proof fn selection_is_definite(requested: ActivationBackend, is_nixos: bool, facts: OutputFacts)
    ensures
        selected(requested, is_nixos, facts) != Ok::<ActivationBackend, Text>(
            ActivationBackend::Auto,
        ),
{
}

/// Why the options of an activation do not go together, if they do not.
pub open spec fn options_refusal(
    backend: ActivationBackend,
    has_profile: bool,
    switch: bool,
    has_flake: bool,
) -> Option<Text> {
    if has_profile && backend != ActivationBackend::NixProfile {
        Some("--profile only applies to --backend nix-profile"@)
    } else if has_flake && !switch {
        Some("--flake only applies with --switch"@)
    } else if switch && backend == ActivationBackend::NixProfile {
        Some("--switch only applies to module backends; nix-profile activates immediately"@)
    } else if switch && (backend == ActivationBackend::PathShim || backend
        == ActivationBackend::SystemdUserService) {
        Some("--switch only applies to Nix module backends"@)
    } else {
        None
    }
}

pub fn check_options(
    backend: ActivationBackend,
    has_profile: bool,
    switch: bool,
    has_flake: bool,
) -> (r: Result<(), Error>)
    ensures
        text::refusal(r) == options_refusal(backend, has_profile, switch, has_flake),
{
    if has_profile && backend != ActivationBackend::NixProfile {
        return Err(fail("--profile only applies to --backend nix-profile".to_owned()));
    }
    if has_flake && !switch {
        return Err(fail("--flake only applies with --switch".to_owned()));
    }
    if switch && backend == ActivationBackend::NixProfile {
        return Err(
            fail(
                "--switch only applies to module backends; nix-profile activates immediately".to_owned(),
            ),
        );
    }
    if switch && (backend == ActivationBackend::PathShim || backend
        == ActivationBackend::SystemdUserService) {
        return Err(fail("--switch only applies to Nix module backends".to_owned()));
    }
    Ok(())
}

// ---- The service to override

pub open spec fn is_supported_service(target: TargetView) -> bool {
    target.supported && target.kind == "systemd-user-service"@
}

/// The user services that can be overridden.
pub open spec fn supported_services(found: Seq<TargetView>) -> Seq<TargetView>
    decreases found.len(),
{
    if found.len() == 0 {
        Seq::empty()
    } else if is_supported_service(found.last()) {
        supported_services(found.drop_last()).push(found.last())
    } else {
        supported_services(found.drop_last())
    }
}

fn supported_indices(report: &TargetReport) -> (r: Vec<usize>)
    ensures
        forall|i: int| 0 <= i < r@.len() ==> (#[trigger] r@[i]) < report.targets@.len(),
        supported_services(report.deep_view().targets) == r@.map_values(
            |i: usize| report.deep_view().targets[i as int],
        ),
{
    let ghost all = report.deep_view().targets;
    let mut r: Vec<usize> = Vec::new();
    let mut i: usize = 0;
    assert(supported_services(all.take(0)) =~= r@.map_values(|i: usize| all[i as int]));
    while i < report.targets.len()
        invariant
            i <= report.targets@.len(),
            all == report.deep_view().targets,
            all.len() == report.targets@.len(),
            forall|j: int| 0 <= j < r@.len() ==> (#[trigger] r@[j]) < report.targets@.len(),
            supported_services(all.take(i as int)) == r@.map_values(|i: usize| all[i as int]),
        decreases report.targets@.len() - i,
    {
        let ghost before = r@;
        let target = &report.targets[i];
        assert(all.take(i + 1).drop_last() =~= all.take(i as int));
        assert(all.take(i + 1).last() == target.deep_view());
        if target.supported && same(target.kind.as_str(), "systemd-user-service") {
            r.push(i);
            assert(r@.map_values(|i: usize| all[i as int]) =~= before.map_values(
                |i: usize| all[i as int],
            ).push(all[i as int]));
        }
        i += 1;
    }
    assert(all.take(all.len() as int) =~= all);
    r
}

pub fn systemd_user_service_target_count(report: &TargetReport) -> (r: usize)
    ensures
        r == supported_services(report.deep_view().targets).len(),
{
    supported_indices(report).len()
}

pub open spec fn ids_of(found: Seq<TargetView>) -> Seq<Text> {
    found.map_values(|target: TargetView| target.id)
}

/// The one user service that can be overridden.
pub open spec fn selected_service(report: ReportView) -> Result<TargetView, Text> {
    let supported = supported_services(report.targets);
    if supported.len() == 0 {
        Err("no supported systemd user service target found"@)
    } else if supported.len() == 1 {
        Ok(supported[0])
    } else {
        Err(
            "multiple systemd user service targets found ("@ + text::joined(
                ids_of(supported),
                ", "@,
            ) + ")"@,
        )
    }
}

pub fn select_systemd_user_service_target(report: &TargetReport) -> (r: Result<
    &ActivationTarget,
    Error,
>)
    ensures
        match r {
            Ok(target) => selected_service(report.deep_view()) == Ok::<TargetView, Text>(
                target.deep_view(),
            ),
            Err(error) => selected_service(report.deep_view()) == Err::<TargetView, Text>(error@),
        },
{
    let indices = supported_indices(report);
    let ghost supported = supported_services(report.deep_view().targets);
    assert(supported.len() == indices@.len());
    if indices.len() == 0 {
        return Err(fail("no supported systemd user service target found".to_owned()));
    }
    assert(supported[0] == report.deep_view().targets[indices@[0] as int]);
    if indices.len() == 1 {
        return Ok(&report.targets[indices[0]]);
    }
    let mut ids: Vec<String> = Vec::new();
    let mut i: usize = 0;
    while i < indices.len()
        invariant
            i <= indices@.len(),
            supported.len() == indices@.len(),
            forall|j: int| 0 <= j < indices@.len() ==> (#[trigger] indices@[j]) < report.targets@.len(),
            supported == indices@.map_values(|i: usize| report.deep_view().targets[i as int]),
            ids.deep_view() == ids_of(supported).take(i as int),
        decreases indices@.len() - i,
    {
        assert(supported[i as int] == report.targets@[indices@[i as int] as int].deep_view());
        push_line(&mut ids, report.targets[indices[i]].id.clone());
        assert(ids_of(supported).take(i + 1) =~= ids_of(supported).take(i as int).push(
            ids_of(supported)[i as int],
        ));
        i += 1;
    }
    assert(ids_of(supported).take(supported.len() as int) =~= ids_of(supported));
    Err(
        fail(
            cat3(
                "multiple systemd user service targets found (",
                join_lines(&ids, ", ").as_str(),
                ")",
            ),
        ),
    )
}

/// What is needed to run the service of an output, whose program has to lie in it.
pub open spec fn service_choice(facts: OutputFacts) -> Result<targets::ServiceSpecView, Text> {
    match targets::report_of(facts) {
        Err(problem) => Err(problem),
        Ok(report) => match selected_service(report) {
            Err(problem) => Err(problem),
            Ok(target) => match targets::service_spec_of(target) {
                Err(problem) => Err(problem),
                Ok(spec_of) => match spec_of.executable {
                    None => Err("systemd user service target has no absolute executable"@),
                    Some(executable) => if paths::lies_under(executable, facts.output@) {
                        Ok(spec_of)
                    } else {
                        Err(
                            "refusing service activation because target executable is outside the forked output: "@
                                + executable,
                        )
                    },
                },
            },
        },
    }
}

/// Chooses the user service of an output to override.
pub fn choose_service(facts: &OutputFacts) -> (r: Result<SystemdUserServiceSpec, Error>)
    ensures
        text::outcome(r) == service_choice(*facts),
{
    let report = match discover(facts) {
        Ok(report) => report,
        Err(error) => {
            return Err(error);
        },
    };
    let target = match select_systemd_user_service_target(&report) {
        Ok(target) => target,
        Err(error) => {
            return Err(error);
        },
    };
    let service = match systemd_user_service_spec(target) {
        Ok(service) => service,
        Err(error) => {
            return Err(error);
        },
    };
    match &service.executable {
        None => {
            return Err(
                fail("systemd user service target has no absolute executable".to_owned()),
            );
        },
        Some(executable) => {
            if !path_starts_with(executable.as_str(), facts.output.as_str()) {
                return Err(
                    fail(
                        cat2(
                            "refusing service activation because target executable is outside the forked output: ",
                            executable.as_str(),
                        ),
                    ),
                );
            }
        },
    }
    Ok(service)
}

// ---- Switching

/// The command that makes a generated module take effect.
#[derive(Debug, Clone, PartialEq, Eq)]
pub struct SwitchCommand {
    pub program: String,
    pub args: Vec<String>,
}

pub struct SwitchView {
    pub program: Text,
    pub args: Seq<Text>,
}

impl DeepView for SwitchCommand {
    type V = SwitchView;

    open spec fn deep_view(&self) -> SwitchView {
        SwitchView { program: self.program@, args: self.args.deep_view() }
    }
}

pub open spec fn flake_choice(flake: Option<Text>) -> Seq<Text> {
    match flake {
        Some(flake) => seq!["--flake"@, flake],
        None => Seq::empty(),
    }
}

/// The command that switches to a module backend's configuration.
pub open spec fn switch_of(backend: ActivationBackend, flake: Option<Text>) -> Result<
    SwitchView,
    Text,
> {
    match backend {
        ActivationBackend::NixosModule => Ok(
            SwitchView {
                program: "sudo"@,
                args: seq!["nixos-rebuild"@, "switch"@] + flake_choice(flake),
            },
        ),
        ActivationBackend::HomeManagerModule => Ok(
            SwitchView { program: "home-manager"@, args: seq!["switch"@] + flake_choice(flake) },
        ),
        ActivationBackend::Auto => Err("backend has no switch command: Auto"@),
        ActivationBackend::NixProfile => Err("backend has no switch command: NixProfile"@),
        ActivationBackend::PathShim => Err("backend has no switch command: PathShim"@),
        ActivationBackend::SystemdUserService => Err(
            "backend has no switch command: SystemdUserService"@,
        ),
    }
}

pub fn switch_command(backend: ActivationBackend, flake: Option<&str>) -> (r: Result<
    SwitchCommand,
    Error,
>)
    ensures
        text::outcome(r) == switch_of(
            backend,
            match flake {
                Some(flake) => Some(flake@),
                None => None,
            },
        ),
{
    let mut args: Vec<String> = Vec::new();
    let program = match backend {
        ActivationBackend::NixosModule => {
            push_line(&mut args, "nixos-rebuild".to_owned());
            "sudo"
        },
        ActivationBackend::HomeManagerModule => "home-manager",
        ActivationBackend::Auto => {
            return Err(fail("backend has no switch command: Auto".to_owned()));
        },
        ActivationBackend::NixProfile => {
            return Err(fail("backend has no switch command: NixProfile".to_owned()));
        },
        ActivationBackend::PathShim => {
            return Err(fail("backend has no switch command: PathShim".to_owned()));
        },
        ActivationBackend::SystemdUserService => {
            return Err(fail("backend has no switch command: SystemdUserService".to_owned()));
        },
    };
    push_line(&mut args, "switch".to_owned());
    if let Some(flake) = flake {
        push_line(&mut args, "--flake".to_owned());
        push_line(&mut args, flake.to_owned());
    }
    let command = SwitchCommand { program: program.to_owned(), args };
    proof {
        let view = match flake {
            Some(flake) => Some(flake@),
            None => None,
        };
        assert(command.deep_view().args =~= switch_of(backend, view)->Ok_0.args);
    }
    Ok(command)
}

/// The characters of a word that a shell takes as they are.
pub open spec fn is_safe(c: char) -> bool {
    text::is_ascii_alphanumeric(c) || c == '/' || c == '.' || c == '_' || c == '-' || c == ':' || c
        == '#'
}

pub open spec fn all_safe(word: Text) -> bool {
    forall|i: int| 0 <= i < word.len() ==> is_safe(#[trigger] word[i])
}

/// A word as it stands between single quotes.
pub open spec fn quoted(word: Text) -> Text
    decreases word.len(),
{
    if word.len() == 0 {
        Seq::empty()
    } else if word[0] == '\'' {
        seq!['\'', '\\', '\'', '\''] + quoted(word.drop_first())
    } else {
        seq![word[0]] + quoted(word.drop_first())
    }
}

/// A word as it can be typed in a shell.
pub open spec fn shell_word(word: Text) -> Text {
    if all_safe(word) {
        word
    } else {
        seq!['\''] + quoted(word) + seq!['\'']
    }
}

fn is_safe_char(c: char) -> (r: bool)
    ensures
        r == is_safe(c),
{
    ascii_alphanumeric(c) || c == '/' || c == '.' || c == '_' || c == '-' || c == ':' || c == '#'
}

pub fn shell_display_word(word: &str) -> (r: String)
    ensures
        r@ == shell_word(word@),
{
    let chars = chars_of(word);
    let mut safe = true;
    let mut i: usize = 0;
    while i < chars.len()
        invariant
            i <= chars@.len(),
            chars@ == word@,
            safe == (forall|j: int| 0 <= j < i ==> is_safe(#[trigger] word@[j])),
        decreases chars@.len() - i,
    {
        safe = safe && is_safe_char(chars[i]);
        i += 1;
    }
    if safe {
        return word.to_owned();
    }
    let mut out = String::new();
    out.push('\'');
    let mut k: usize = 0;
    assert(word@.skip(0) =~= word@);
    assert(out@ =~= seq!['\'']);
    while k < chars.len()
        invariant
            k <= chars@.len(),
            chars@ == word@,
            out@ + quoted(word@.skip(k as int)) == seq!['\''] + quoted(word@),
        decreases chars@.len() - k,
    {
        let ghost rest = word@.skip(k as int);
        let ghost before = out@;
        assert(rest[0] == chars@[k as int]);
        assert(rest.drop_first() =~= word@.skip(k + 1));
        if chars[k] == '\'' {
            out.push('\'');
            out.push('\\');
            out.push('\'');
            out.push('\'');
        } else {
            out.push(chars[k]);
        }
        assert(out@ + quoted(word@.skip(k + 1)) =~= before + quoted(rest));
        k += 1;
    }
    assert(word@.skip(chars@.len() as int) =~= Seq::empty());
    assert(out@ + Seq::empty() =~= out@);
    out.push('\'');
    assert(out@ =~= shell_word(word@));
    out
}

pub open spec fn words_of(command: SwitchView) -> Seq<Text> {
    (seq![command.program] + command.args).map_values(|word: Text| shell_word(word))
}

impl SwitchCommand {
    /// The command as it can be typed in a shell.
    pub fn display(&self) -> (r: String)
        ensures
            r@ == text::joined(words_of(self.deep_view()), " "@),
    {
        let ghost all = words_of(self.deep_view());
        let mut words: Vec<String> = Vec::new();
        push_line(&mut words, shell_display_word(self.program.as_str()));
        let mut i: usize = 0;
        assert(all[0] == shell_word(self.program@));
        assert(words.deep_view() =~= all.take(1));
        while i < self.args.len()
            invariant
                i <= self.args@.len(),
                all == words_of(self.deep_view()),
                all.len() == self.args@.len() + 1,
                words.deep_view() == all.take(i + 1),
            decreases self.args@.len() - i,
        {
            assert(all[i + 1] == shell_word(self.args@[i as int]@));
            push_line(&mut words, shell_display_word(self.args[i].as_str()));
            assert(all.take(i + 2) =~= all.take(i + 1).push(all[i + 1]));
            i += 1;
        }
        assert(all.take(all.len() as int) =~= all);
        join_lines(&words, " ")
    }

    /// What came of running the command: `cause` tells why it could not be run, `status`
    /// how it failed.
    pub fn result(&self, cause: &Option<String>, status: &Option<String>) -> (r: Result<(), Error>)
        ensures
            text::refusal(r) == (match cause.deep_view() {
                Some(cause) => Some(
                    "failed to execute "@ + self.deep_view().program + ": "@ + cause,
                ),
                None => match status.deep_view() {
                    Some(status) => Some(
                        text::joined(words_of(self.deep_view()), " "@) + " failed with status "@
                            + status,
                    ),
                    None => None,
                },
            }),
    {
        if let Some(cause) = cause {
            return Err(
                fail(
                    cat3(
                        cat2("failed to execute ", self.program.as_str()).as_str(),
                        ": ",
                        cause.as_str(),
                    ),
                ),
            );
        }
        if let Some(status) = status {
            return Err(
                fail(cat3(self.display().as_str(), " failed with status ", status.as_str())),
            );
        }
        Ok(())
    }
}

/// What a shell reads from the inside of single quotes on: the word up to its end.
pub open spec fn shell_read(s: Text, inside: bool) -> Option<Text>
    decreases s.len(),
{
    if s.len() == 0 {
        if inside {
            None
        } else {
            Some(Seq::empty())
        }
    } else if s[0] == '\'' {
        shell_read(s.drop_first(), !inside)
    } else if !inside && s[0] == '\\' {
        if s.len() == 1 {
            None
        } else {
            match shell_read(s.skip(2), false) {
                Some(rest) => Some(seq![s[1]] + rest),
                None => None,
            }
        }
    } else {
        match shell_read(s.drop_first(), inside) {
            Some(rest) => Some(seq![s[0]] + rest),
            None => None,
        }
    }
}

proof fn lemma_quoted_reads_back(word: Text)
    ensures
        shell_read(quoted(word) + seq!['\''], true) == Some(word),
    decreases word.len(),
{
    let whole = quoted(word) + seq!['\''];
    if word.len() == 0 {
        assert(whole =~= seq!['\'']);
        assert(whole.drop_first() =~= Seq::empty());
        assert(shell_read(whole.drop_first(), false) == Some(Seq::<char>::empty()));
        assert(word =~= Seq::empty());
    } else {
        let rest = word.drop_first();
        let tail = quoted(rest) + seq!['\''];
        lemma_quoted_reads_back(rest);
        assert(seq![word[0]] + rest =~= word);
        if word[0] == '\'' {
            assert(whole =~= seq!['\'', '\\', '\'', '\''] + tail);
            let s1 = whole.drop_first();
            let s2 = s1.skip(2);
            assert(s1 =~= seq!['\\', '\'', '\''] + tail);
            assert(s2 =~= seq!['\''] + tail);
            assert(s2.drop_first() =~= tail);
            assert(shell_read(s2, false) == shell_read(tail, true));
            assert(shell_read(s1, false) == Some(seq!['\''] + rest));
        } else {
            assert(whole =~= seq![word[0]] + tail);
            assert(whole.drop_first() =~= tail);
        }
    }
}

/// A word that is shown in quotes is read by a shell as it was.
pub proof fn quoted_words_read_back(word: Text)
    requires
        !all_safe(word),
    ensures
        shell_read(shell_word(word), false) == Some(word),
{
    lemma_quoted_reads_back(word);
    let whole = shell_word(word);
    assert(whole.drop_first() =~= quoted(word) + seq!['\'']);
}

} // verus!
