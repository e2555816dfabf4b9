//! Configuration read from `.symtrace.toml`.
use vstd::prelude::*;
use vstd::string::StringExecFns;

verus! {

/// The `[logging]` section.
pub struct LoggingConfig {
    pub level: Option<String>,
}

/// The whole configuration file.
pub struct SymtraceConfig {
    pub logging: LoggingConfig,
    /// `[server.<language>]` sections, by language name.
    pub server: Vec<(String, ServerConfig)>,
    /// `[[projects]]` entries.
    pub projects: Vec<ProjectEntry>,
}

/// One `[server.<language>]` section.
pub struct ServerConfig {
    pub command: String,
    pub idle_timeout_secs: u64,
}

/// One `[[projects]]` entry.
pub struct ProjectEntry {
    /// Project root, relative to the directory of the configuration file.
    pub root: String,
    /// Environment variables handed to the language servers of the project.
    pub env: Vec<(String, String)>,
}

/// The idle timeout of a server section that gives none.
pub fn default_idle_timeout() -> (r: u64)
    ensures
        r == 600,
{
    600
}

impl SymtraceConfig {
    /// The configuration used when no file exists: one project rooted at `cwd`,
    /// no server overrides, no logging level.
    pub fn implicit(cwd: &str) -> (r: Self)
        ensures
            r.server@.len() == 0,
            r.projects@.len() == 1,
            r.projects@[0].root@ == cwd@,
            r.projects@[0].env@.len() == 0,
            r.logging.level is None,
    {
        let mut projects: Vec<ProjectEntry> = Vec::new();
        projects.push(ProjectEntry { root: String::from_str(cwd), env: Vec::new() });
        SymtraceConfig { logging: LoggingConfig { level: None }, server: Vec::new(), projects }
    }
}

} // verus!
