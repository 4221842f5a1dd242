//! Workspace configuration data: where asset files live, what to
//! ignore, and how command interception behaves.

use vstd::prelude::*;

verus! {

/// Where the workspace keeps its asset files, by role.
#[derive(Debug, Clone, PartialEq)]
pub struct AssetPaths {
    pub models: String,
    pub controllers: String,
    pub ui: String,
}

/// Tuning for command interception and report budgets.
#[derive(Debug, Clone, PartialEq)]
pub struct LlmIntegration {
    pub enable_command_interception: bool,
    pub optimize_for_tokens: bool,
    pub context_preservation: bool,
    pub indicators_auto_include: bool,
    pub default_detail_level: String,
    pub cache_strategy: String,
    pub token_budget: usize,
    pub session_timeout: u64,
    pub command_batching_enabled: bool,
}

/// The whole workspace configuration.
#[derive(Debug, Clone, PartialEq)]
pub struct VqlConfig {
    pub asset_paths: AssetPaths,
    pub ignore_patterns: Vec<String>,
    pub llm_integration: LlmIntegration,
}

/// The default truth of every interception switch.
pub fn default_true() -> (r: bool)
    ensures
        r == true,
{
    true
}

/// Where model files live by default.
pub fn default_models_path() -> (r: String)
    ensures
        r@ == "./server/models"@,
{
    "./server/models".to_owned()
}

/// Where controller files live by default.
pub fn default_controllers_path() -> (r: String)
    ensures
        r@ == "./server/controllers"@,
{
    "./server/controllers".to_owned()
}

/// Where interface components live by default.
pub fn default_ui_path() -> (r: String)
    ensures
        r@ == "./client/src/components"@,
{
    "./client/src/components".to_owned()
}

/// The glob patterns ignored by default.
pub fn default_ignore_patterns() -> (r: Vec<String>)
    ensures
        r@.len() == 2,
        r@[0]@ == "**/node_modules/**"@,
        r@[1]@ == "**/dist/**"@,
{
    let mut v: Vec<String> = Vec::new();
    v.push("**/node_modules/**".to_owned());
    v.push("**/dist/**".to_owned());
    v
}

/// The default report detail level.
pub fn default_detail_level() -> (r: String)
    ensures
        r@ == "standard"@,
{
    "standard".to_owned()
}

/// The default cache strategy.
pub fn default_cache_strategy() -> (r: String)
    ensures
        r@ == "aggressive"@,
{
    "aggressive".to_owned()
}

/// The default token budget of one report.
pub fn default_token_budget() -> (r: usize)
    ensures
        r == 2000,
{
    2000
}

/// The default session timeout, in seconds.
pub fn default_session_timeout() -> (r: u64)
    ensures
        r == 3600,
{
    3600
}

impl Default for AssetPaths {
    /// The default asset locations.
    fn default() -> (r: Self)
        ensures
            r.models@ == "./server/models"@,
            r.controllers@ == "./server/controllers"@,
            r.ui@ == "./client/src/components"@,
    {
        AssetPaths {
            models: default_models_path(),
            controllers: default_controllers_path(),
            ui: default_ui_path(),
        }
    }
}

impl Default for LlmIntegration {
    /// Interception on, standard detail, aggressive caching.
    fn default() -> (r: Self)
        ensures
            r.enable_command_interception == true,
            r.optimize_for_tokens == true,
            r.context_preservation == true,
            r.indicators_auto_include == true,
            r.default_detail_level@ == "standard"@,
            r.cache_strategy@ == "aggressive"@,
            r.token_budget == 2000,
            r.session_timeout == 3600,
            r.command_batching_enabled == true,
    {
        LlmIntegration {
            enable_command_interception: default_true(),
            optimize_for_tokens: default_true(),
            context_preservation: default_true(),
            indicators_auto_include: default_true(),
            default_detail_level: default_detail_level(),
            cache_strategy: default_cache_strategy(),
            token_budget: default_token_budget(),
            session_timeout: default_session_timeout(),
            command_batching_enabled: default_true(),
        }
    }
}

impl Default for VqlConfig {
    /// The default workspace configuration.
    fn default() -> (r: Self)
        ensures
            r.ignore_patterns@.len() == 2,
            r.ignore_patterns@[0]@ == "**/node_modules/**"@,
            r.ignore_patterns@[1]@ == "**/dist/**"@,
            r.llm_integration.token_budget == 2000,
    {
        VqlConfig {
            asset_paths: AssetPaths::default(),
            ignore_patterns: default_ignore_patterns(),
            llm_integration: LlmIntegration::default(),
        }
    }
}

} // verus!
