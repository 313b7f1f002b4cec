use vstd::prelude::*;

use crate::logging::LoggingConfig;
use crate::smtp::config::SmtpConfig;

verus! {

/// The process environment variables that the configuration reads, each as
/// it was found (`None` when unset or not valid Unicode).
pub struct EnvVars {
    pub log_level: Option<String>,
    pub default_log_dir: Option<String>,
    pub log_filename: Option<String>,
    pub smtp_security: Option<String>,
    pub smtp_port: Option<String>,
    pub smtp_host: Option<String>,
    pub smtp_username: Option<String>,
    pub smtp_password: Option<String>,
    pub smtp_from: Option<String>,
    pub smtp_to: Option<String>,
}

impl EnvVars {
    /// An environment in which none of the variables is set.
    pub fn empty() -> (r: EnvVars)
        ensures
            r.log_level is None,
            r.default_log_dir is None,
            r.log_filename is None,
            r.smtp_security is None,
            r.smtp_port is None,
            r.smtp_host is None,
            r.smtp_username is None,
            r.smtp_password is None,
            r.smtp_from is None,
            r.smtp_to is None,
    {
        EnvVars {
            log_level: None,
            default_log_dir: None,
            log_filename: None,
            smtp_security: None,
            smtp_port: None,
            smtp_host: None,
            smtp_username: None,
            smtp_password: None,
            smtp_from: None,
            smtp_to: None,
        }
    }
}

/// The whole application configuration.
pub struct Config {
    pub logging: LoggingConfig,
    pub smtp: SmtpConfig,
}

impl Config {
    /// Reads the logging and SMTP configuration from the given environment.
    pub fn new(env: &EnvVars) -> (r: Config)
        ensures
            r.logging.spec_matches_env(env),
            r.smtp.spec_matches_env(env),
    {
        Config { logging: LoggingConfig::new(env), smtp: SmtpConfig::new(env) }
    }
}

} // verus!
