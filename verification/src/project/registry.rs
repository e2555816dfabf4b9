//! Routing files to projects and building each project's server settings.
use vstd::prelude::*;
use vstd::string::StringExecFns;
use crate::config::ServerConfig;
use crate::server::manager::{
    default_configs, first_for_language, is_default_rust_config, is_default_typescript_config,
    Language, LanguageConfigs,
};
use crate::text::str_eq;

verus! {

/// Length in bytes of the UTF-8 encoding of a text.
pub open spec fn utf8_len(s: Seq<char>) -> usize {
    vstd::utf8::encode_utf8(s).len() as usize
}

/// What `std::path::Path::starts_with` answers: whether the components of `root`
/// form a prefix of the components of `path`.
pub uninterp spec fn path_starts_with(path: Seq<char>, root: Seq<char>) -> bool;

/// What `{:?}` prints for the path (`std::path::Path`) with the given text: quoted, with
/// special characters escaped as `Path`'s `Debug` does it.
pub uninterp spec fn debug_text(s: Seq<char>) -> Seq<char>;

/// Whether `path` lies under `root`, component by component
/// (`std::path::Path::starts_with`).
#[verifier::external_body]
fn path_has_prefix(path: &str, root: &str) -> (r: bool)
    ensures
        r == path_starts_with(path@, root@),
{
    std::path::Path::new(path).starts_with(root)
}

/// The path as `{:?}` prints it (`<std::path::Path as Debug>::fmt`).
#[verifier::external_body]
pub(crate) fn debug_quoted(s: &str) -> (r: String)
    ensures
        r@ == debug_text(s@),
{
    format!("{:?}", std::path::Path::new(s))
}

/// Error type for project routing.
pub enum RegistryError {
    NoProjectForFile { path: String, roots: Vec<String> },
    Canonicalization { root: String, source: String },
}

/// `items` joined with `", "` between them.
pub open spec fn joined_with_comma(items: Seq<Seq<char>>) -> Seq<char>
    decreases items.len(),
{
    if items.len() == 0 {
        Seq::empty()
    } else if items.len() == 1 {
        items[0]
    } else {
        joined_with_comma(items.drop_last()) + ", "@ + items.last()
    }
}

/// Joins the given strings with `", "` between them.
pub fn join_comma(items: &Vec<String>) -> (r: String)
    ensures
        r@ == joined_with_comma(items@.map_values(|s: String| s@)),
{
    let ghost views = items@.map_values(|s: String| s@);
    let mut r = String::new();
    let mut i: usize = 0;
    while i < items.len()
        invariant
            i <= items@.len(),
            views == items@.map_values(|s: String| s@),
            r@ == joined_with_comma(views.take(i as int)),
        decreases items@.len() - i,
    {
        if i > 0 {
            r.append(", ");
        }
        r.append(items[i].as_str());
        assert(views.take(i + 1).drop_last() =~= views.take(i as int));
        i = i + 1;
    }
    assert(views.take(items@.len() as int) =~= views);
    r
}

impl RegistryError {
    /// The human-readable description of the error.
    pub open spec fn message_spec(&self) -> Seq<char> {
        match self {
            RegistryError::NoProjectForFile { path, roots } => "file "@ + debug_text(path@)
                + " does not belong to any configured project (roots: "@ + joined_with_comma(
                roots@.map_values(|s: String| s@),
            ) + ")"@,
            RegistryError::Canonicalization { root, source } => "project root "@ + debug_text(root@)
                + " does not exist or is not accessible: "@ + source@,
        }
    }

    /// The human-readable description of the error.
    pub fn message(&self) -> (r: String)
        ensures
            r@ == self.message_spec(),
    {
        match self {
            RegistryError::NoProjectForFile { path, roots } => {
                let r = String::from_str("file ").concat(debug_quoted(path.as_str()).as_str()).concat(
                    " does not belong to any configured project (roots: ",
                ).concat(join_comma(roots).as_str()).concat(")");
                r
            },
            RegistryError::Canonicalization { root, source } => String::from_str("project root ")
                .concat(debug_quoted(root.as_str()).as_str())
                .concat(" does not exist or is not accessible: ")
                .concat(source.as_str()),
        }
    }
}

/// The root that serves `path`: among the roots that are a component prefix of `path`,
/// a longest one (by byte length); among equally long ones, the first given.
pub fn select_project_root(roots: &Vec<String>, path: &str) -> (r: Option<usize>)
    ensures
        r is None <==> forall|j: int| 0 <= j < roots@.len() ==> !path_starts_with(path@, #[trigger] roots@[j]@),
        r matches Some(i) ==> {
            &&& i < roots@.len()
            &&& path_starts_with(path@, roots@[i as int]@)
            &&& forall|j: int|
                0 <= j < roots@.len() && path_starts_with(path@, #[trigger] roots@[j]@) ==> {
                    ||| utf8_len(roots@[j]@) < utf8_len(roots@[i as int]@)
                    ||| (utf8_len(roots@[j]@) == utf8_len(roots@[i as int]@) && i <= j)
                }
        },
{
    let mut best: Option<usize> = None;
    let mut best_len: usize = 0;
    let mut k: usize = 0;
    while k < roots.len()
        invariant
            k <= roots@.len(),
            best is None <==> forall|j: int| 0 <= j < k ==> !path_starts_with(path@, #[trigger] roots@[j]@),
            best matches Some(i) ==> {
                &&& i < k
                &&& path_starts_with(path@, roots@[i as int]@)
                &&& best_len == utf8_len(roots@[i as int]@)
                &&& forall|j: int|
                    0 <= j < k && path_starts_with(path@, #[trigger] roots@[j]@) ==> {
                        ||| utf8_len(roots@[j]@) < best_len
                        ||| (utf8_len(roots@[j]@) == best_len && i <= j)
                    }
            },
        decreases roots@.len() - k,
    {
        let root = roots[k].as_str();
        if path_has_prefix(path, root) {
            let len = root.len();
            assert(len == utf8_len(roots@[k as int]@));
            match best {
                None => {
                    best = Some(k);
                    best_len = len;
                },
                Some(_) => {
                    if len > best_len {
                        best = Some(k);
                        best_len = len;
                    }
                },
            }
        }
        k = k + 1;
    }
    best
}

/// The last `[server.<key>]` section, if any.
pub open spec fn last_server_section(section: Seq<(String, ServerConfig)>, key: Seq<char>) -> Option<ServerConfig>
    decreases section.len(),
{
    if section.len() == 0 {
        None
    } else if section.last().0@ == key {
        Some(section.last().1)
    } else {
        last_server_section(section.drop_last(), key)
    }
}

/// The command configured for a language: the last matching section's, else `default`.
pub open spec fn configured_command(section: Seq<(String, ServerConfig)>, key: Seq<char>, default: Seq<char>) -> Seq<char> {
    match last_server_section(section, key) {
        Some(c) => c.command@,
        None => default,
    }
}

/// The idle timeout configured for a language: the last matching section's, else 600.
pub open spec fn configured_timeout(section: Seq<(String, ServerConfig)>, key: Seq<char>) -> u64 {
    match last_server_section(section, key) {
        Some(c) => c.idle_timeout_secs,
        None => 600,
    }
}

/// The built-in language server configurations.
pub fn default_server_configs() -> (r: LanguageConfigs)
    ensures
        r.entries@.len() == 2,
        is_default_rust_config(r.entries@[0]),
        is_default_typescript_config(r.entries@[1]),
{
    default_configs()
}

/// The language configurations of a project: the built-in ones, with the command and
/// idle timeout of `[server.rust]` and `[server.typescript]` applied; other sections
/// are ignored.
pub fn build_server_configs(server_section: &Vec<(String, ServerConfig)>) -> (r: LanguageConfigs)
    ensures
        r.entries@.len() == 2,
        r.entries@[0].language == Language::Rust,
        r.entries@[0].command@ == configured_command(server_section@, "rust"@, "rust-analyzer"@),
        r.entries@[0].idle_timeout_secs == configured_timeout(server_section@, "rust"@),
        r.entries@[0].args@.len() == 0,
        r.entries@[0].extensions@.len() == 1 && r.entries@[0].extensions@[0]@ == "rs"@,
        r.entries@[0].language_id@ == "rust"@,
        r.entries@[1].language == Language::TypeScript,
        r.entries@[1].command@ == configured_command(server_section@, "typescript"@, "typescript-language-server"@),
        r.entries@[1].idle_timeout_secs == configured_timeout(server_section@, "typescript"@),
        r.entries@[1].args@.len() == 1 && r.entries@[1].args@[0]@ == "--stdio"@,
        r.entries@[1].extensions@.len() == 4,
        r.entries@[1].extensions@[0]@ == "ts"@ && r.entries@[1].extensions@[1]@ == "tsx"@,
        r.entries@[1].extensions@[2]@ == "js"@ && r.entries@[1].extensions@[3]@ == "jsx"@,
        r.entries@[1].language_id@ == "typescript"@,
{
    let mut configs = default_server_configs();
    let ghost d0 = configs.entries@[0];
    let ghost d1 = configs.entries@[1];
    let mut i: usize = 0;
    while i < server_section.len()
        invariant
            i <= server_section@.len(),
            configs.entries@.len() == 2,
            configs.entries@[0].language == Language::Rust,
            configs.entries@[1].language == Language::TypeScript,
            configs.entries@[0].args == d0.args && configs.entries@[0].extensions == d0.extensions,
            configs.entries@[0].language_id == d0.language_id,
            configs.entries@[1].args == d1.args && configs.entries@[1].extensions == d1.extensions,
            configs.entries@[1].language_id == d1.language_id,
            is_default_rust_config(d0),
            is_default_typescript_config(d1),
            configs.entries@[0].command@ == configured_command(server_section@.take(i as int), "rust"@, "rust-analyzer"@),
            configs.entries@[0].idle_timeout_secs == configured_timeout(server_section@.take(i as int), "rust"@),
            configs.entries@[1].command@ == configured_command(server_section@.take(i as int), "typescript"@, "typescript-language-server"@),
            configs.entries@[1].idle_timeout_secs == configured_timeout(server_section@.take(i as int), "typescript"@),
        decreases server_section@.len() - i,
    {
        let ghost prev = configs.entries@;
        let name = server_section[i].0.as_str();
        let cfg = &server_section[i].1;
        assert(server_section@.take(i + 1).drop_last() =~= server_section@.take(i as int));
        assert(server_section@.take(i + 1).last() == server_section@[i as int]);
        proof {
            reveal_strlit("rust");
            reveal_strlit("typescript");
        }
        if str_eq(name, "rust") {
            assert(first_for_language(prev, Language::Rust) == Some(0int)) by {
                reveal_with_fuel(first_for_language, 3);
                assert(prev.drop_last().drop_last() =~= Seq::<crate::server::manager::LanguageServerConfig>::empty());
            }
            configs.override_server(Language::Rust, cfg.command.clone(), cfg.idle_timeout_secs);
            assert(name@.len() == 4);
            assert("typescript"@.len() == 10);
            assert(name@ != "typescript"@);
        } else if str_eq(name, "typescript") {
            assert(first_for_language(prev, Language::TypeScript) == Some(1int)) by {
                reveal_with_fuel(first_for_language, 3);
                assert(prev.drop_last().drop_last() =~= Seq::<crate::server::manager::LanguageServerConfig>::empty());
            }
            configs.override_server(Language::TypeScript, cfg.command.clone(), cfg.idle_timeout_secs);
        }
        i = i + 1;
    }
    assert(server_section@.take(server_section@.len() as int) =~= server_section@);
    configs
}

} // verus!
