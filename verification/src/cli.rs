//! What the command line asks for.

use vstd::prelude::*;

use crate::config::{EscudoConfig, EscudoConfigView};
use crate::report::OutputFormat;

verus! {

/// The exit code where the audit found nothing.
pub const EXIT_CLEAN: i32 = 0;

/// The exit code where the audit found violations.
pub const EXIT_VIOLATIONS: i32 = 1;

/// The exit code where the audit could not be carried out.
pub const EXIT_ERROR: i32 = 2;

/// What speaks for one output format or another.
#[derive(Debug, Clone, Copy)]
pub struct FormatFlags {
    /// `--html` was given.
    pub html: bool,
    /// `--json` was given.
    pub json: bool,
    /// The GitHub format was asked for.
    pub github: bool,
    /// The program runs in GitHub Actions.
    pub github_actions: bool,
}

/// The output format: HTML goes before JSON, JSON before GitHub annotations.
pub open spec fn format_of(flags: FormatFlags) -> OutputFormat {
    if flags.html {
        OutputFormat::Html
    } else if flags.json {
        OutputFormat::Json
    } else if flags.github || flags.github_actions {
        OutputFormat::Github
    } else {
        OutputFormat::Human
    }
}

/// Pick the output format.
pub fn select_format(flags: FormatFlags) -> (format: OutputFormat)
    ensures
        format == format_of(flags),
{
    if flags.html {
        OutputFormat::Html
    } else if flags.json {
        OutputFormat::Json
    } else if flags.github || flags.github_actions {
        OutputFormat::Github
    } else {
        OutputFormat::Human
    }
}

/// Settings of the command line that go before the configuration.
#[derive(Debug, Clone, Copy)]
pub struct Overrides {
    /// Minimum days since publish.
    pub cooldown_days: Option<u32>,
    /// Allow git dependencies.
    pub allow_git_deps: bool,
    /// Allow path dependencies.
    pub allow_path_deps: bool,
    /// Max duplicate versions of the same crate.
    pub max_duplicate_versions: Option<u32>,
}

impl Overrides {
    /// Something is overridden.
    pub open spec fn any(self) -> bool {
        ||| self.cooldown_days is Some
        ||| self.allow_git_deps
        ||| self.allow_path_deps
        ||| self.max_duplicate_versions is Some
    }

    /// The configuration with the overrides in place.
    pub open spec fn applied_to(self, config: EscudoConfigView) -> EscudoConfigView {
        EscudoConfigView {
            cooldown_days: match self.cooldown_days {
                Some(days) => days,
                None => config.cooldown_days,
            },
            allow_git_deps: config.allow_git_deps || self.allow_git_deps,
            allow_path_deps: config.allow_path_deps || self.allow_path_deps,
            max_duplicate_versions: match self.max_duplicate_versions {
                Some(max) => Some(max),
                None => config.max_duplicate_versions,
            },
            ..config
        }
    }

    /// Whether something is overridden.
    pub fn is_any(&self) -> (any: bool)
        ensures
            any == self.any(),
    {
        self.cooldown_days.is_some() || self.allow_git_deps || self.allow_path_deps
            || self.max_duplicate_versions.is_some()
    }

    /// Put the overrides in place.
    pub fn apply(&self, config: &mut EscudoConfig)
        ensures
            final(config).deep_view() == self.applied_to(old(config).deep_view()),
    {
        if let Some(days) = self.cooldown_days {
            config.cooldown_days = days;
        }
        if self.allow_git_deps {
            config.allow_git_deps = true;
        }
        if self.allow_path_deps {
            config.allow_path_deps = true;
        }
        if let Some(max) = self.max_duplicate_versions {
            config.max_duplicate_versions = Some(max);
        }
    }
}

/// What is printed where nothing was configured, line by line.
pub open spec fn notice(has_config_file: bool, overrides: Overrides) -> Seq<Seq<char>> {
    if has_config_file || overrides.any() {
        Seq::empty()
    } else {
        seq![
            "no escudo.toml found and no CLI overrides set"@,
            "running with defaults: cooldown_days=7, git/path deps blocked"@,
            "license and duplicate checks are disabled until configured"@,
            ""@,
            "create an escudo.toml or pass flags like --cooldown-days 14"@,
            "see: escudo --help"@,
        ]
    }
}

/// What is printed where nothing was configured, line by line.
pub fn defaults_notice(has_config_file: bool, overrides: &Overrides) -> (lines: Vec<String>)
    ensures
        lines.deep_view() == notice(has_config_file, *overrides),
{
    let mut lines: Vec<String> = Vec::new();
    if !has_config_file && !overrides.is_any() {
        lines.push("no escudo.toml found and no CLI overrides set".to_owned());
        lines.push("running with defaults: cooldown_days=7, git/path deps blocked".to_owned());
        lines.push("license and duplicate checks are disabled until configured".to_owned());
        lines.push("".to_owned());
        lines.push("create an escudo.toml or pass flags like --cooldown-days 14".to_owned());
        lines.push("see: escudo --help".to_owned());
    }
    assert(lines.deep_view() =~= notice(has_config_file, *overrides));
    lines
}

/// The exit code of an audit.
pub open spec fn code_of(clean: bool) -> i32 {
    if clean {
        EXIT_CLEAN
    } else {
        EXIT_VIOLATIONS
    }
}

/// The exit code of an audit.
pub fn exit_code(clean: bool) -> (code: i32)
    ensures
        code == code_of(clean),
        code == (if clean {
            EXIT_CLEAN
        } else {
            EXIT_VIOLATIONS
        }),
{
    if clean {
        EXIT_CLEAN
    } else {
        EXIT_VIOLATIONS
    }
}

/// What the command line sets goes before the configuration.
pub proof fn overrides_win(overrides: Overrides, config: EscudoConfigView)
    ensures
        overrides.cooldown_days matches Some(days) ==> overrides.applied_to(config).cooldown_days
            == days,
        overrides.max_duplicate_versions is Some ==> overrides.applied_to(
            config,
        ).max_duplicate_versions == overrides.max_duplicate_versions,
        overrides.allow_git_deps ==> overrides.applied_to(config).allow_git_deps,
        overrides.allow_path_deps ==> overrides.applied_to(config).allow_path_deps,
{
}

/// What the command line does not set stays as it is configured.
pub proof fn the_rest_stays(overrides: Overrides, config: EscudoConfigView)
    ensures
        !overrides.any() ==> overrides.applied_to(config) == config,
        overrides.applied_to(config).allowed_licenses == config.allowed_licenses,
        overrides.applied_to(config).banned_crates == config.banned_crates,
        overrides.applied_to(config).exceptions == config.exceptions,
{
}

/// To put the overrides in place twice is to put them in place once.
pub proof fn overriding_is_idempotent(overrides: Overrides, config: EscudoConfigView)
    ensures
        overrides.applied_to(overrides.applied_to(config)) == overrides.applied_to(config),
{
}

/// Which format comes of which flags: HTML wherever it is asked for; JSON where
/// it is asked for and HTML is not; GitHub annotations where they are asked
/// for, or the program runs in GitHub Actions, and neither of the others is
/// asked for; and where nothing speaks for any of them, the summary for people.
pub proof fn which_format(flags: FormatFlags)
    ensures
        format_of(flags) is Html <==> flags.html,
        format_of(flags) is Json <==> flags.json && !flags.html,
        format_of(flags) is Github <==> (flags.github || flags.github_actions) && !flags.json
            && !flags.html,
        format_of(flags) is Human <==> !flags.html && !flags.json && !flags.github
            && !flags.github_actions,
{
}

/// Field by field, whatever else is overridden: what is not overridden keeps
/// its configured value.
pub proof fn each_field_stays_unless_overridden(overrides: Overrides, config: EscudoConfigView)
    ensures
        overrides.cooldown_days is None ==> overrides.applied_to(config).cooldown_days
            == config.cooldown_days,
        overrides.max_duplicate_versions is None ==> overrides.applied_to(
            config,
        ).max_duplicate_versions == config.max_duplicate_versions,
        !overrides.allow_git_deps ==> overrides.applied_to(config).allow_git_deps
            == config.allow_git_deps,
        !overrides.allow_path_deps ==> overrides.applied_to(config).allow_path_deps
            == config.allow_path_deps,
{
}

/// No override depends on another: a field comes out the same for all overrides
/// that agree on it, and all configurations that do.
pub proof fn fields_are_independent(
    a: Overrides,
    b: Overrides,
    config: EscudoConfigView,
    other: EscudoConfigView,
)
    ensures
        a.cooldown_days == b.cooldown_days && config.cooldown_days == other.cooldown_days
            ==> a.applied_to(config).cooldown_days == b.applied_to(other).cooldown_days,
        a.max_duplicate_versions == b.max_duplicate_versions && config.max_duplicate_versions
            == other.max_duplicate_versions ==> a.applied_to(config).max_duplicate_versions
            == b.applied_to(other).max_duplicate_versions,
        a.allow_git_deps == b.allow_git_deps && config.allow_git_deps == other.allow_git_deps
            ==> a.applied_to(config).allow_git_deps == b.applied_to(other).allow_git_deps,
        a.allow_path_deps == b.allow_path_deps && config.allow_path_deps == other.allow_path_deps
            ==> a.applied_to(config).allow_path_deps == b.applied_to(other).allow_path_deps,
{
}

/// The notice is printed exactly where there is no configuration file and no
/// override of any kind, and it is the same notice each time.
pub proof fn when_the_notice_is_printed(
    has_config_file: bool,
    overrides: Overrides,
    other: Overrides,
)
    ensures
        notice(has_config_file, overrides).len() > 0 <==> {
            &&& !has_config_file
            &&& overrides.cooldown_days is None
            &&& !overrides.allow_git_deps
            &&& !overrides.allow_path_deps
            &&& overrides.max_duplicate_versions is None
        },
        notice(false, overrides).len() > 0 && notice(false, other).len() > 0 ==> notice(
            false,
            overrides,
        ) == notice(false, other),
{
}

/// An audit that found nothing exits with zero, and no other one does; the code
/// of a failure is that of no audit that was carried out.
pub proof fn only_clean_audits_exit_with_zero(clean: bool)
    ensures
        code_of(clean) == 0 <==> clean,
        code_of(clean) == 1 <==> !clean,
        EXIT_ERROR != code_of(clean),
        EXIT_ERROR == 2,
{
}

/// Something is overridden exactly if one of the four settings is given.
pub proof fn when_anything_is_overridden(overrides: Overrides)
    ensures
        overrides.any() <==> overrides.cooldown_days is Some || overrides.allow_git_deps
            || overrides.allow_path_deps || overrides.max_duplicate_versions is Some,
{
}

} // verus!
