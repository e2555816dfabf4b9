//! Which language server serves which file, and with what settings.
use vstd::prelude::*;
use vstd::string::StringExecFns;
use crate::lsp::client::ClientError;
use crate::text::{chars_of, str_eq};

verus! {

/// Supported language identifiers.
#[derive(Debug, Clone, Copy, PartialEq, Eq, Hash, Structural)]
pub enum Language {
    Rust,
    TypeScript,
}

impl Language {
    /// The language's name as it is recorded in usage statistics.
    pub open spec fn name_spec(self) -> Seq<char> {
        match self {
            Language::Rust => "Rust"@,
            Language::TypeScript => "TypeScript"@,
        }
    }

    /// The language's name as it is recorded in usage statistics.
    pub fn name(self) -> (r: String)
        ensures
            r@ == self.name_spec(),
    {
        match self {
            Language::Rust => String::from_str("Rust"),
            Language::TypeScript => String::from_str("TypeScript"),
        }
    }
}

/// Configuration for a single language server.
pub struct LanguageServerConfig {
    pub language: Language,
    pub command: String,
    pub args: Vec<String>,
    pub extensions: Vec<String>,
    pub language_id: String,
    pub idle_timeout_secs: u64,
}

/// The LSP `languageId` of a file with extension `ext` served by `cfg`.
pub open spec fn language_id_for_extension_spec(cfg: LanguageServerConfig, ext: Seq<char>) -> Seq<char> {
    match cfg.language {
        Language::TypeScript => if ext == "js"@ {
            "javascript"@
        } else if ext == "jsx"@ {
            "javascriptreact"@
        } else if ext == "tsx"@ {
            "typescriptreact"@
        } else {
            cfg.language_id@
        },
        _ => cfg.language_id@,
    }
}

impl LanguageServerConfig {
    /// Return the correct LSP `languageId` for a specific file extension.
    ///
    /// TypeScript-family servers require per-extension IDs: `javascript` for `.js`,
    /// `javascriptreact` for `.jsx`, `typescriptreact` for `.tsx`; otherwise the
    /// configured `language_id` is used.
    pub fn language_id_for_extension(&self, ext: &str) -> (r: &str)
        ensures
            r@ == language_id_for_extension_spec(*self, ext@),
    {
        match self.language {
            Language::TypeScript => {
                if str_eq(ext, "js") {
                    "javascript"
                } else if str_eq(ext, "jsx") {
                    "javascriptreact"
                } else if str_eq(ext, "tsx") {
                    "typescriptreact"
                } else {
                    self.language_id.as_str()
                }
            },
            _ => self.language_id.as_str(),
        }
    }

    /// Whether files with extension `ext` belong to this server.
    pub fn handles_extension(&self, ext: &str) -> (r: bool)
        ensures
            r == exists|i: int| 0 <= i < self.extensions@.len() && #[trigger] self.extensions@[i]@ == ext@,
    {
        let mut i: usize = 0;
        while i < self.extensions.len()
            invariant
                i <= self.extensions@.len(),
                forall|k: int| 0 <= k < i ==> #[trigger] self.extensions@[k]@ != ext@,
            decreases self.extensions@.len() - i,
        {
            if str_eq(self.extensions[i].as_str(), ext) {
                return true;
            }
            i = i + 1;
        }
        false
    }

    /// The server's command-line arguments.
    pub fn args_from(&self) -> (r: Vec<&str>)
        ensures
            r@.len() == self.args@.len(),
            forall|i: int| 0 <= i < r@.len() ==> #[trigger] r@[i]@ == self.args@[i]@,
    {
        let mut r: Vec<&str> = Vec::new();
        let mut i: usize = 0;
        while i < self.args.len()
            invariant
                i <= self.args@.len(),
                r@.len() == i,
                forall|k: int| 0 <= k < i ==> #[trigger] r@[k]@ == self.args@[k]@,
            decreases self.args@.len() - i,
        {
            r.push(self.args[i].as_str());
            i = i + 1;
        }
        r
    }
}


/// Index of the first configuration for `lang`.
pub open spec fn first_for_language(es: Seq<LanguageServerConfig>, lang: Language) -> Option<int>
    decreases es.len(),
{
    if es.len() == 0 {
        None
    } else if es.last().language == lang && first_for_language(es.drop_last(), lang) is None {
        Some(es.len() - 1)
    } else {
        first_for_language(es.drop_last(), lang)
    }
}

/// Whether configuration `c` serves files with extension `ext`.
pub open spec fn serves_extension(c: LanguageServerConfig, ext: Seq<char>) -> bool {
    exists|i: int| 0 <= i < c.extensions@.len() && #[trigger] c.extensions@[i]@ == ext
}

/// Index of the first configuration that serves extension `ext`.
pub open spec fn first_for_extension(es: Seq<LanguageServerConfig>, ext: Seq<char>) -> Option<int>
    decreases es.len(),
{
    if es.len() == 0 {
        None
    } else if serves_extension(es.last(), ext) && first_for_extension(es.drop_last(), ext) is None {
        Some(es.len() - 1)
    } else {
        first_for_extension(es.drop_last(), ext)
    }
}

proof fn lemma_first_for_language(es: Seq<LanguageServerConfig>, lang: Language, i: int)
    requires
        0 <= i <= es.len(),
        forall|k: int| 0 <= k < i ==> es[k].language != lang,
    ensures
        i < es.len() && es[i].language == lang ==> first_for_language(es, lang) == Some(i),
        i == es.len() ==> first_for_language(es, lang) is None,
    decreases es.len(),
{
    if es.len() > 0 {
        if i < es.len() {
            if i < es.len() - 1 {
                lemma_first_for_language(es.drop_last(), lang, i);
            } else {
                lemma_first_for_language(es.drop_last(), lang, i);
            }
        } else {
            lemma_first_for_language(es.drop_last(), lang, i - 1);
        }
    }
}

proof fn lemma_first_for_extension(es: Seq<LanguageServerConfig>, ext: Seq<char>, i: int)
    requires
        0 <= i <= es.len(),
        forall|k: int| 0 <= k < i ==> !serves_extension(#[trigger] es[k], ext),
    ensures
        i < es.len() && serves_extension(es[i], ext) ==> first_for_extension(es, ext) == Some(i),
        i == es.len() ==> first_for_extension(es, ext) is None,
    decreases es.len(),
{
    if es.len() > 0 {
        if i < es.len() {
            lemma_first_for_extension(es.drop_last(), ext, i);
        } else {
            lemma_first_for_extension(es.drop_last(), ext, i - 1);
        }
    }
}

/// The language server configurations, one per language.
pub struct LanguageConfigs {
    pub entries: Vec<LanguageServerConfig>,
}

impl LanguageConfigs {
    /// The configuration for `language`.
    pub fn get(&self, language: &Language) -> (r: Option<&LanguageServerConfig>)
        ensures
            match first_for_language(self.entries@, *language) {
                Some(i) => r == Some(&self.entries@[i]),
                None => r is None,
            },
    {
        let mut i: usize = 0;
        while i < self.entries.len()
            invariant
                i <= self.entries@.len(),
                forall|k: int| 0 <= k < i ==> self.entries@[k].language != *language,
            decreases self.entries@.len() - i,
        {
            if self.entries[i].language == *language {
                proof {
                    lemma_first_for_language(self.entries@, *language, i as int);
                }
                return Some(&self.entries[i]);
            }
            i = i + 1;
        }
        proof {
            lemma_first_for_language(self.entries@, *language, i as int);
        }
        None
    }

    /// The language whose server handles files with extension `ext`; `None` when the
    /// file has no extension or no server handles it.
    pub fn language_for_extension(&self, ext: Option<&str>) -> (r: Option<Language>)
        ensures
            match ext {
                None => r is None,
                Some(e) => match first_for_extension(self.entries@, e@) {
                    Some(i) => r == Some(self.entries@[i].language),
                    None => r is None,
                },
            },
    {
        let e = match ext {
            Some(e) => e,
            None => return None,
        };
        let mut i: usize = 0;
        while i < self.entries.len()
            invariant
                i <= self.entries@.len(),
                ext == Some(e),
                forall|k: int| 0 <= k < i ==> !serves_extension(#[trigger] self.entries@[k], e@),
            decreases self.entries@.len() - i,
        {
            if self.entries[i].handles_extension(e) {
                proof {
                    assert(serves_extension(self.entries@[i as int], e@));
                    lemma_first_for_extension(self.entries@, e@, i as int);
                }
                return Some(self.entries[i].language);
            }
            assert(!serves_extension(self.entries@[i as int], e@));
            i = i + 1;
        }
        proof {
            lemma_first_for_extension(self.entries@, e@, i as int);
        }
        None
    }

    /// Replaces the command and idle timeout of the configuration for `language`,
    /// when there is one.
    pub fn override_server(&mut self, language: Language, command: String, idle_timeout_secs: u64)
        ensures
            final(self).entries@.len() == old(self).entries@.len(),
            match first_for_language(old(self).entries@, language) {
                Some(i) => {
                    &&& final(self).entries@[i].command == command
                    &&& final(self).entries@[i].idle_timeout_secs == idle_timeout_secs
                    &&& final(self).entries@[i].language == old(self).entries@[i].language
                    &&& final(self).entries@[i].args == old(self).entries@[i].args
                    &&& final(self).entries@[i].extensions == old(self).entries@[i].extensions
                    &&& final(self).entries@[i].language_id == old(self).entries@[i].language_id
                    &&& forall|k: int| 0 <= k < old(self).entries@.len() && k != i ==> final(self).entries@[k] == old(self).entries@[k]
                },
                None => final(self).entries@ == old(self).entries@,
            },
    {
        let mut i: usize = 0;
        while i < self.entries.len()
            invariant
                i <= self.entries@.len(),
                self.entries@ == old(self).entries@,
                forall|k: int| 0 <= k < i ==> self.entries@[k].language != language,
            decreases self.entries@.len() - i,
        {
            if self.entries[i].language == language {
                proof {
                    lemma_first_for_language(self.entries@, language, i as int);
                }
                let mut e = self.entries.remove(i);
                e.command = command;
                e.idle_timeout_secs = idle_timeout_secs;
                self.entries.insert(i, e);
                return;
            }
            i = i + 1;
        }
        proof {
            lemma_first_for_language(self.entries@, language, i as int);
        }
    }
}

fn strings(items: &[&str]) -> (r: Vec<String>)
    ensures
        r@.len() == items@.len(),
        forall|i: int| 0 <= i < items@.len() ==> #[trigger] r@[i]@ == items@[i]@,
{
    let mut r: Vec<String> = Vec::new();
    let mut i: usize = 0;
    while i < items.len()
        invariant
            i <= items@.len(),
            r@.len() == i,
            forall|k: int| 0 <= k < i ==> #[trigger] r@[k]@ == items@[k]@,
        decreases items@.len() - i,
    {
        r.push(String::from_str(items[i]));
        i = i + 1;
    }
    r
}

/// The built-in configuration for Rust.
pub open spec fn is_default_rust_config(c: LanguageServerConfig) -> bool {
    &&& c.language == Language::Rust
    &&& c.command@ == "rust-analyzer"@
    &&& c.args@.len() == 0
    &&& c.extensions@.len() == 1
    &&& c.extensions@[0]@ == "rs"@
    &&& c.language_id@ == "rust"@
    &&& c.idle_timeout_secs == 600
}

/// The built-in configuration for TypeScript and JavaScript.
pub open spec fn is_default_typescript_config(c: LanguageServerConfig) -> bool {
    &&& c.language == Language::TypeScript
    &&& c.command@ == "typescript-language-server"@
    &&& c.args@.len() == 1
    &&& c.args@[0]@ == "--stdio"@
    &&& c.extensions@.len() == 4
    &&& c.extensions@[0]@ == "ts"@
    &&& c.extensions@[1]@ == "tsx"@
    &&& c.extensions@[2]@ == "js"@
    &&& c.extensions@[3]@ == "jsx"@
    &&& c.language_id@ == "typescript"@
    &&& c.idle_timeout_secs == 600
}

/// Default configs for Rust and TypeScript.
pub fn default_configs() -> (r: LanguageConfigs)
    ensures
        r.entries@.len() == 2,
        is_default_rust_config(r.entries@[0]),
        is_default_typescript_config(r.entries@[1]),
{
    let mut entries: Vec<LanguageServerConfig> = Vec::new();
    entries.push(LanguageServerConfig {
        language: Language::Rust,
        command: String::from_str("rust-analyzer"),
        args: Vec::new(),
        extensions: strings(&["rs"]),
        language_id: String::from_str("rust"),
        idle_timeout_secs: 600,
    });
    entries.push(LanguageServerConfig {
        language: Language::TypeScript,
        command: String::from_str("typescript-language-server"),
        args: strings(&["--stdio"]),
        extensions: strings(&["ts", "tsx", "js", "jsx"]),
        language_id: String::from_str("typescript"),
        idle_timeout_secs: 600,
    });
    LanguageConfigs { entries }
}

/// Error type for server manager operations.
pub enum ManagerError {
    UnsupportedLanguage(String),
    StartupFailed(String),
    ClientError(ClientError),
}

impl ManagerError {
    /// The human-readable description of the error.
    pub open spec fn message_spec(&self) -> Seq<char> {
        match self {
            ManagerError::UnsupportedLanguage(ext) => "no language server configured for ."@ + ext@ + " files"@,
            ManagerError::StartupFailed(m) => "language server startup failed: "@ + m@,
            ManagerError::ClientError(e) => e.message_spec(),
        }
    }

    /// The human-readable description of the error.
    pub fn message(&self) -> (r: String)
        ensures
            r@ == self.message_spec(),
    {
        match self {
            ManagerError::UnsupportedLanguage(ext) => String::from_str("no language server configured for .")
                .concat(ext.as_str()).concat(" files"),
            ManagerError::StartupFailed(m) => String::from_str("language server startup failed: ").concat(m.as_str()),
            ManagerError::ClientError(e) => e.message(),
        }
    }
}

} // verus!
