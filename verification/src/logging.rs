use vstd::prelude::*;

use crate::config::EnvVars;
use crate::text::string_or;

verus! {

/// Where and how verbosely the application logs.
pub struct LoggingConfig {
    pub log_level: String,
    pub default_log_dir: String,
    pub log_filename: String,
}

/// `v` when the variable is set, else `default`.
pub open spec fn env_or(v: Option<String>, default: Seq<char>) -> Seq<char> {
    match v {
        Some(s) => s@,
        None => default,
    }
}

/// A variable that is set is used as it is, whatever the default; the
/// default stands only for an unset one.
pub proof fn law_set_variable_wins(v: Option<String>, default: Seq<char>, other: Seq<char>)
    ensures
        v matches Some(s) ==> env_or(v, default) == s@ && env_or(v, default) == env_or(v, other),
        v is None ==> env_or(v, default) == default,
{
}

impl LoggingConfig {
    /// `LOG_LEVEL` (default `INFO`), `DEFAULT_LOG_DIR` (default `./logs`) and
    /// `LOG_FILENAME` (default `app.log`) as read from `env`.
    pub open spec fn spec_matches_env(&self, env: &EnvVars) -> bool {
        &&& self.log_level@ == env_or(env.log_level, "INFO"@)
        &&& self.default_log_dir@ == env_or(env.default_log_dir, "./logs"@)
        &&& self.log_filename@ == env_or(env.log_filename, "app.log"@)
    }

    /// Reads the logging configuration from the given environment.
    pub fn new(env: &EnvVars) -> (r: LoggingConfig)
        ensures
            r.spec_matches_env(env),
    {
        LoggingConfig {
            log_level: string_or(&env.log_level, "INFO"),
            default_log_dir: string_or(&env.default_log_dir, "./logs"),
            log_filename: string_or(&env.log_filename, "app.log"),
        }
    }
}

} // verus!
