//! When an idle language server is due to be shut down.
use vstd::prelude::*;
use crate::server::manager::{first_for_language, Language, LanguageConfigs};

verus! {

/// How often, in seconds, the monitor looks for idle servers.
pub const DEFAULT_CHECK_INTERVAL_SECS: u64 = 60;

/// The idle timeout, in seconds, of a language that has no configuration.
pub const DEFAULT_IDLE_TIMEOUT_SECS: u64 = 300;

/// The idle timeout of `language`: its configuration's, else the default.
pub open spec fn idle_timeout_spec(configs: LanguageConfigs, language: Language) -> u64 {
    match first_for_language(configs.entries@, language) {
        Some(i) => configs.entries@[i].idle_timeout_secs,
        None => DEFAULT_IDLE_TIMEOUT_SECS,
    }
}

/// The languages among `usage` (language, seconds since last use) whose servers have
/// been idle at least as long as their timeout, in the order of `usage`.
pub open spec fn idle_languages_spec(configs: LanguageConfigs, usage: Seq<(Language, u64)>) -> Seq<Language>
    decreases usage.len(),
{
    if usage.len() == 0 {
        Seq::empty()
    } else {
        let rest = idle_languages_spec(configs, usage.drop_last());
        let (language, elapsed) = usage.last();
        if elapsed >= idle_timeout_spec(configs, language) {
            rest.push(language)
        } else {
            rest
        }
    }
}

/// The idle timeout of `language`: its configuration's, else the default.
pub fn idle_timeout(configs: &LanguageConfigs, language: Language) -> (r: u64)
    ensures
        r == idle_timeout_spec(*configs, language),
{
    match configs.get(&language) {
        Some(cfg) => cfg.idle_timeout_secs,
        None => DEFAULT_IDLE_TIMEOUT_SECS,
    }
}

/// Whether a server for `language`, last used `elapsed_secs` seconds ago, is to be
/// shut down.
pub fn should_shutdown(configs: &LanguageConfigs, language: Language, elapsed_secs: u64) -> (r: bool)
    ensures
        r == (elapsed_secs >= idle_timeout_spec(*configs, language)),
{
    elapsed_secs >= idle_timeout(configs, language)
}

/// The languages among `usage` (language, seconds since last use) whose servers are to
/// be shut down, in the order of `usage`.
pub fn idle_languages(configs: &LanguageConfigs, usage: &Vec<(Language, u64)>) -> (r: Vec<Language>)
    ensures
        r@ == idle_languages_spec(*configs, usage@),
{
    let mut r: Vec<Language> = Vec::new();
    let mut i: usize = 0;
    while i < usage.len()
        invariant
            i <= usage@.len(),
            r@ == idle_languages_spec(*configs, usage@.subrange(0, i as int)),
        decreases usage@.len() - i,
    {
        let (language, elapsed) = usage[i];
        assert(usage@.subrange(0, i + 1).drop_last() =~= usage@.subrange(0, i as int));
        if should_shutdown(configs, language, elapsed) {
            r.push(language);
        }
        i = i + 1;
    }
    assert(usage@.subrange(0, usage@.len() as int) =~= usage@);
    r
}

} // verus!
