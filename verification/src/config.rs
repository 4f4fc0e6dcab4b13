//! Configuration of the audit.

use vstd::prelude::*;

verus! {

/// Per-crate exception that relaxes the freshness cooldown.
#[derive(Debug, Clone)]
pub struct CrateException {
    /// The crate name this exception applies to.
    pub crate_name: String,
    /// Human-readable reason for the exception.
    pub reason: String,
    /// Custom cooldown in days for this crate.
    pub days: u32,
}

/// Top-level escudo configuration, typically loaded from `escudo.toml`.
#[derive(Debug, Clone)]
pub struct EscudoConfig {
    /// Minimum number of days since the last publish before a crate is
    /// considered "settled". Newer publishes trigger a warning.
    pub cooldown_days: u32,
    /// Whether to allow git-source dependencies.
    pub allow_git_deps: bool,
    /// Whether to allow path-source dependencies.
    pub allow_path_deps: bool,
    /// Maximum number of different versions of the same crate allowed in the
    /// dependency tree before a warning is emitted. `None` = skip this check.
    pub max_duplicate_versions: Option<u32>,
    /// SPDX license identifiers that are considered acceptable.
    pub allowed_licenses: Vec<String>,
    /// Crate names that should always be flagged, regardless of other checks.
    pub banned_crates: Vec<String>,
    /// Per-crate exceptions for the freshness cooldown.
    pub exceptions: Vec<CrateException>,
}

/// Model of a [`CrateException`].
pub struct CrateExceptionView {
    pub crate_name: Seq<char>,
    pub reason: Seq<char>,
    pub days: u32,
}

/// Model of an [`EscudoConfig`].
pub struct EscudoConfigView {
    pub cooldown_days: u32,
    pub allow_git_deps: bool,
    pub allow_path_deps: bool,
    pub max_duplicate_versions: Option<u32>,
    pub allowed_licenses: Seq<Seq<char>>,
    pub banned_crates: Seq<Seq<char>>,
    pub exceptions: Seq<CrateExceptionView>,
}

impl DeepView for CrateException {
    type V = CrateExceptionView;

    open spec fn deep_view(&self) -> CrateExceptionView {
        CrateExceptionView {
            crate_name: self.crate_name@,
            reason: self.reason@,
            days: self.days,
        }
    }
}

impl DeepView for EscudoConfig {
    type V = EscudoConfigView;

    open spec fn deep_view(&self) -> EscudoConfigView {
        EscudoConfigView {
            cooldown_days: self.cooldown_days,
            allow_git_deps: self.allow_git_deps,
            allow_path_deps: self.allow_path_deps,
            max_duplicate_versions: self.max_duplicate_versions,
            allowed_licenses: self.allowed_licenses.deep_view(),
            banned_crates: self.banned_crates.deep_view(),
            exceptions: self.exceptions.deep_view(),
        }
    }
}

/// The configuration that holds where nothing is configured.
pub open spec fn default_config() -> EscudoConfigView {
    EscudoConfigView {
        cooldown_days: 7,
        allow_git_deps: false,
        allow_path_deps: false,
        max_duplicate_versions: None,
        allowed_licenses: Seq::empty(),
        banned_crates: Seq::empty(),
        exceptions: Seq::empty(),
    }
}

impl Default for EscudoConfig {
    fn default() -> (config: Self)
        ensures
            config.deep_view() == default_config(),
    {
        let config = EscudoConfig {
            cooldown_days: 7,
            allow_git_deps: false,
            allow_path_deps: false,
            max_duplicate_versions: None,
            allowed_licenses: Vec::new(),
            banned_crates: Vec::new(),
            exceptions: Vec::new(),
        };
        assert(config.allowed_licenses.deep_view() =~= Seq::empty());
        assert(config.banned_crates.deep_view() =~= Seq::empty());
        assert(config.exceptions.deep_view() =~= Seq::empty());
        config
    }
}

/// Where the configuration comes from.
#[derive(Debug, Clone, PartialEq)]
pub enum ConfigLocation {
    /// The file that was named explicitly.
    Explicit,
    /// `escudo.toml` in the project directory.
    Project,
    /// `escudo.toml` in the current directory.
    Current,
    /// No file: the built-in defaults.
    Defaults,
}

/// Which files there are for the configuration to come from.
#[derive(Debug, Clone, Copy)]
pub struct ConfigCandidates {
    /// A file was named explicitly.
    pub explicit: bool,
    /// The file that was named explicitly exists.
    pub explicit_exists: bool,
    /// The project directory holds an `escudo.toml`.
    pub project_exists: bool,
    /// The current directory holds an `escudo.toml`.
    pub current_exists: bool,
}

/// The location of the configuration, or nothing where a file was named that
/// does not exist.
pub open spec fn config_location(candidates: ConfigCandidates) -> Option<ConfigLocation> {
    if candidates.explicit {
        if candidates.explicit_exists {
            Some(ConfigLocation::Explicit)
        } else {
            None
        }
    } else if candidates.project_exists {
        Some(ConfigLocation::Project)
    } else if candidates.current_exists {
        Some(ConfigLocation::Current)
    } else {
        Some(ConfigLocation::Defaults)
    }
}

/// Decide where the configuration is loaded from.
///
/// - A file that was named is read, and has to exist.
/// - Otherwise `escudo.toml` is looked for in the project directory, then in
///   the current directory.
/// - If neither exists, the built-in defaults hold.
pub fn locate_config(candidates: ConfigCandidates) -> (location: Option<ConfigLocation>)
    ensures
        location == config_location(candidates),
{
    if candidates.explicit {
        if candidates.explicit_exists {
            Some(ConfigLocation::Explicit)
        } else {
            None
        }
    } else if candidates.project_exists {
        Some(ConfigLocation::Project)
    } else if candidates.current_exists {
        Some(ConfigLocation::Current)
    } else {
        Some(ConfigLocation::Defaults)
    }
}

/// A file that is named is the one that is read, and has to exist; without one,
/// the project's file goes before that of the current directory; and only where
/// none of them is there, the defaults hold.
pub proof fn where_the_configuration_comes_from(candidates: ConfigCandidates)
    ensures
        config_location(candidates) is None <==> candidates.explicit && !candidates.explicit_exists,
        config_location(candidates) == Some(ConfigLocation::Explicit) <==> candidates.explicit
            && candidates.explicit_exists,
        config_location(candidates) == Some(ConfigLocation::Project) <==> !candidates.explicit
            && candidates.project_exists,
        config_location(candidates) == Some(ConfigLocation::Current) <==> !candidates.explicit
            && !candidates.project_exists && candidates.current_exists,
        config_location(candidates) == Some(ConfigLocation::Defaults) <==> !candidates.explicit
            && !candidates.project_exists && !candidates.current_exists,
{
}

} // verus!
