//! The configuration: defaults, a file, and the environment.
use vstd::prelude::*;
use crate::path::{join, joined_path};
use crate::text::{copy_opt, opt_view, owned};

verus! {

/// The provider that the configuration names.
#[derive(Debug, PartialEq, Eq)]
pub struct ProviderConfig {
    pub name: String,
    pub model: String,
    pub api_base: Option<String>,
    pub api_key: Option<String>,
}

/// The value of a `ProviderConfig`.
pub struct ProviderConfigView {
    pub name: Seq<char>,
    pub model: Seq<char>,
    pub api_base: Option<Seq<char>>,
    pub api_key: Option<Seq<char>>,
}

impl View for ProviderConfig {
    type V = ProviderConfigView;

    open spec fn view(&self) -> ProviderConfigView {
        ProviderConfigView {
            name: self.name@,
            model: self.model@,
            api_base: opt_view(self.api_base),
            api_key: opt_view(self.api_key),
        }
    }
}

impl Clone for ProviderConfig {
    fn clone(&self) -> (r: Self)
        ensures
            r@ == self@,
    {
        ProviderConfig {
            name: self.name.clone(),
            model: self.model.clone(),
            api_base: copy_opt(&self.api_base),
            api_key: copy_opt(&self.api_key),
        }
    }
}

/// The configuration that is in effect.
#[derive(Debug, PartialEq, Eq)]
pub struct AppConfig {
    pub profile: String,
    pub workspace: String,
    pub log_level: String,
    pub provider: ProviderConfig,
}

/// The value of a `AppConfig`.
pub struct AppConfigView {
    pub profile: Seq<char>,
    pub workspace: Seq<char>,
    pub log_level: Seq<char>,
    pub provider: ProviderConfigView,
}

impl View for AppConfig {
    type V = AppConfigView;

    open spec fn view(&self) -> AppConfigView {
        AppConfigView {
            profile: self.profile@,
            workspace: self.workspace@,
            log_level: self.log_level@,
            provider: self.provider@,
        }
    }
}

impl Clone for AppConfig {
    fn clone(&self) -> (r: Self)
        ensures
            r@ == self@,
    {
        AppConfig {
            profile: self.profile.clone(),
            workspace: self.workspace.clone(),
            log_level: self.log_level.clone(),
            provider: self.provider.clone(),
        }
    }
}

/// What a configuration file or the environment sets.
#[derive(Debug, PartialEq, Eq)]
pub struct PartialAppConfig {
    pub profile: Option<String>,
    pub workspace: Option<String>,
    pub log_level: Option<String>,
    pub provider_name: Option<String>,
    pub provider_model: Option<String>,
    pub api_base: Option<String>,
    pub api_key: Option<String>,
}

/// The value of a `PartialAppConfig`.
pub struct PartialAppConfigView {
    pub profile: Option<Seq<char>>,
    pub workspace: Option<Seq<char>>,
    pub log_level: Option<Seq<char>>,
    pub provider_name: Option<Seq<char>>,
    pub provider_model: Option<Seq<char>>,
    pub api_base: Option<Seq<char>>,
    pub api_key: Option<Seq<char>>,
}

impl View for PartialAppConfig {
    type V = PartialAppConfigView;

    open spec fn view(&self) -> PartialAppConfigView {
        PartialAppConfigView {
            profile: opt_view(self.profile),
            workspace: opt_view(self.workspace),
            log_level: opt_view(self.log_level),
            provider_name: opt_view(self.provider_name),
            provider_model: opt_view(self.provider_model),
            api_base: opt_view(self.api_base),
            api_key: opt_view(self.api_key),
        }
    }
}

/// The value of an optional `PartialAppConfig`.
pub open spec fn opt_partial_app_config(x: Option<PartialAppConfig>) -> Option<PartialAppConfigView> {
    match x {
        Some(v) => Some(v@),
        None => None,
    }
}

/// The configuration file that is read where none is named.
pub const DEFAULT_CONFIG_FILE: &'static str = "rust-codingagent.toml";

/// The configuration where nothing is set.
pub open spec fn default_config(workspace: Seq<char>) -> AppConfigView {
    AppConfigView {
        profile: "default"@,
        workspace,
        log_level: "warn"@,
        provider: ProviderConfigView {
            name: "local"@,
            model: "stub"@,
            api_base: None,
            api_key: None,
        },
    }
}

/// What is set, or what was there before.
pub open spec fn set_or(set: Option<Seq<char>>, before: Seq<char>) -> Seq<char> {
    match set {
        Some(value) => value,
        None => before,
    }
}

/// What is set, or what was there before, of a setting that may be missing.
pub open spec fn set_or_opt(set: Option<Seq<char>>, before: Option<Seq<char>>) -> Option<
    Seq<char>,
> {
    if set is Some {
        set
    } else {
        before
    }
}

/// A configuration with what is set put over it.
pub open spec fn overlaid(config: AppConfigView, set: PartialAppConfigView) -> AppConfigView {
    AppConfigView {
        profile: set_or(set.profile, config.profile),
        workspace: set_or(set.workspace, config.workspace),
        log_level: set_or(set.log_level, config.log_level),
        provider: ProviderConfigView {
            name: set_or(set.provider_name, config.provider.name),
            model: set_or(set.provider_model, config.provider.model),
            api_base: set_or_opt(set.api_base, config.provider.api_base),
            api_key: set_or_opt(set.api_key, config.provider.api_key),
        },
    }
}

/// A configuration with what a file sets put over it, if there is one.
pub open spec fn with_file(config: AppConfigView, file: Option<PartialAppConfigView>) -> AppConfigView {
    match file {
        Some(set) => overlaid(config, set),
        None => config,
    }
}

fn take_or(set: Option<String>, before: String) -> (r: String)
    ensures
        r@ == set_or(opt_view(set), before@),
{
    match set {
        Some(value) => value,
        None => before,
    }
}

fn take_or_opt(set: Option<String>, before: Option<String>) -> (r: Option<String>)
    ensures
        opt_view(r) == set_or_opt(opt_view(set), opt_view(before)),
{
    match set {
        Some(value) => Some(value),
        None => before,
    }
}

impl AppConfig {
    /// The configuration where nothing is set.
    pub fn default_for(workspace: &str) -> (r: Self)
        ensures
            r@ == default_config(workspace@),
    {
        AppConfig {
            profile: owned("default"),
            workspace: owned(workspace),
            log_level: owned("warn"),
            provider: ProviderConfig {
                name: owned("local"),
                model: owned("stub"),
                api_base: None,
                api_key: None,
            },
        }
    }

    /// The configuration with what is set put over it.
    pub fn merge(self, set: PartialAppConfig) -> (r: Self)
        ensures
            r@ == overlaid(self@, set@),
    {
        AppConfig {
            profile: take_or(set.profile, self.profile),
            workspace: take_or(set.workspace, self.workspace),
            log_level: take_or(set.log_level, self.log_level),
            provider: ProviderConfig {
                name: take_or(set.provider_name, self.provider.name),
                model: take_or(set.provider_model, self.provider.model),
                api_base: take_or_opt(set.api_base, self.provider.api_base),
                api_key: take_or_opt(set.api_key, self.provider.api_key),
            },
        }
    }

    /// The configuration that is in effect: the defaults, then what the file sets, then
    /// what the environment sets.
    pub fn load(
        workspace: &str,
        file: Option<PartialAppConfig>,
        environment: PartialAppConfig,
    ) -> (r: Self)
        ensures
            r@ == overlaid(
                with_file(default_config(workspace@), opt_partial_app_config(file)),
                environment@,
            ),
    {
        let config = AppConfig::default_for(workspace);
        let config = match file {
            Some(set) => config.merge(set),
            None => config,
        };
        config.merge(environment)
    }
}

/// The environment goes before the file, and the file before the defaults, for each
/// setting on its own.
pub proof fn environment_goes_before_file(
    workspace: Seq<char>,
    file: PartialAppConfigView,
    environment: PartialAppConfigView,
)
    ensures
        ({
            let d = default_config(workspace);
            let c = overlaid(with_file(d, Some(file)), environment);
            &&& c.profile == set_or(environment.profile, set_or(file.profile, d.profile))
            &&& c.workspace == set_or(environment.workspace, set_or(file.workspace, d.workspace))
            &&& c.log_level == set_or(environment.log_level, set_or(file.log_level, d.log_level))
            &&& c.provider.name == set_or(
                environment.provider_name,
                set_or(file.provider_name, d.provider.name),
            )
            &&& c.provider.model == set_or(
                environment.provider_model,
                set_or(file.provider_model, d.provider.model),
            )
            &&& c.provider.api_base == set_or_opt(environment.api_base, file.api_base)
            &&& c.provider.api_key == set_or_opt(environment.api_key, file.api_key)
        }),
{
}

/// The configuration file to be read: the named one, else the default one where it exists.
pub open spec fn file_to_read(named: Option<Seq<char>>, default_exists: bool) -> Option<Seq<char>> {
    match named {
        Some(path) => Some(path),
        None => if default_exists {
            Some(DEFAULT_CONFIG_FILE@)
        } else {
            None
        },
    }
}

/// The configuration file to be read.
pub fn config_file_to_read(named: Option<String>, default_exists: bool) -> (r: Option<String>)
    ensures
        opt_view(r) == file_to_read(opt_view(named), default_exists),
{
    match named {
        Some(path) => Some(path),
        None => {
            if default_exists {
                Some(owned(DEFAULT_CONFIG_FILE))
            } else {
                None
            }
        },
    }
}

/// The workspace where none is set: `workspace` in the home directory where it exists,
/// else the current directory.
pub open spec fn workspace_of(home: Option<Seq<char>>, exists: bool, current: Option<Seq<char>>) -> Seq<
    char,
> {
    match home {
        Some(h) if exists => joined_path(h, "workspace"@),
        _ => match current {
            Some(dir) => dir,
            None => "."@,
        },
    }
}

/// The workspace where none is set, where `exists` says whether the home directory holds
/// a `workspace`.
pub fn default_workspace(home: Option<String>, exists: bool, current: Option<String>) -> (r: String)
    ensures
        r@ == workspace_of(opt_view(home), exists, opt_view(current)),
{
    match home {
        Some(h) if exists => join(h.as_str(), "workspace"),
        _ => match current {
            Some(dir) => dir,
            None => owned("."),
        },
    }
}

} // verus!
