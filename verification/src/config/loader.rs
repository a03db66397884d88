//! Choosing the configuration to use.
use vstd::prelude::*;

use super::types::{config_dir, home_dir, is_default_config, string_views, JumpConfig};
use crate::paths::{lemma_join_extends, path_join, path_join_exec};
use crate::text::{has_prefix, has_suffix};

verus! {

/// Why a configuration file could not be used.
#[derive(Debug, Clone)]
pub struct ConfigError {
    pub message: String,
}

/// Picks the configuration. Reading and parsing the file happen where the
/// file system is at hand; what is decided from their results is here.
pub struct ConfigLoader;

impl ConfigLoader {
    /// The configuration read from an explicitly given file, or from the first
    /// configuration file found; the default when there is none or it could
    /// not be loaded.
    pub fn load_or_default(loaded: Option<Result<JumpConfig, ConfigError>>) -> (r: JumpConfig)
        ensures
            loaded matches Some(Ok(c)) ==> r == c,
            !(loaded matches Some(Ok(_))) ==> exists|home: Option<Seq<char>>| #[trigger] is_default_config(r, home),
    {
        match loaded {
            Some(Ok(c)) => c,
            _ => JumpConfig::default(),
        }
    }

    /// The configuration from the configuration file found, if one was found
    /// and loaded.
    pub fn find_and_load(loaded: Option<Result<JumpConfig, ConfigError>>) -> (r: Option<JumpConfig>)
        ensures
            loaded matches Some(Ok(c)) ==> r == Some(c),
            !(loaded matches Some(Ok(_))) ==> r is None,
    {
        match loaded {
            Some(Ok(c)) => Some(c),
            _ => None,
        }
    }
}

/// Where a configuration file is looked for, in order: `.jump.toml`, then
/// `<config_dir>/jump/config.toml`, then `<home>/.config/jump/config.toml`;
/// nowhere when either directory is unknown.
pub open spec fn config_locations_for(config_dir: Option<Seq<char>>, home: Option<Seq<char>>) -> Option<
    Seq<Seq<char>>,
> {
    match (config_dir, home) {
        (Some(c), Some(h)) => Some(
            seq![".jump.toml"@, path_join(c, "jump/config.toml"@), path_join(h, ".config/jump/config.toml"@)],
        ),
        _ => None,
    }
}

/// The view of an optional list of strings.
pub open spec fn opt_string_views(o: Option<Vec<String>>) -> Option<Seq<Seq<char>>> {
    match o {
        Some(v) => Some(string_views(v@)),
        None => None,
    }
}

impl ConfigLoader {
    /// The places to look for a configuration file, given the configuration
    /// and home directories.
    pub fn config_locations(config_dir: Option<String>, home: Option<String>) -> (r: Option<Vec<String>>)
        ensures
            opt_string_views(r) == config_locations_for(config_dir.deep_view(), home.deep_view()),
    {
        match (config_dir, home) {
            (Some(c), Some(h)) => {
                let v = vec![
                    ".jump.toml".to_owned(),
                    path_join_exec(c.as_str(), "jump/config.toml"),
                    path_join_exec(h.as_str(), ".config/jump/config.toml"),
                ];
                assert(string_views(v@) =~= config_locations_for(Some(c@), Some(h@))->0);
                Some(v)
            },
            _ => None,
        }
    }

    /// The places to look for a configuration file, for the user's
    /// configuration and home directories.
    pub fn config_file_candidates() -> (r: Option<Vec<String>>)
        ensures
            exists|c: Option<Seq<char>>, h: Option<Seq<char>>|
                opt_string_views(r) == #[trigger] config_locations_for(c, h),
    {
        let c = config_dir();
        let h = home_dir();
        let r = Self::config_locations(c, h);
        assert(opt_string_views(r) == config_locations_for(c.deep_view(), h.deep_view()));
        r
    }
}


/// Where a configuration file is looked for, for any configuration
/// directory `c` and home `h`: first `.jump.toml`; then `jump/config.toml`
/// under `c` (a path that starts with `c`); then `.config/jump/config.toml`
/// under `h` (a path that starts with `h`).
pub proof fn law_config_locations(c: Seq<char>, h: Seq<char>)
    ensures
        config_locations_for(Some(c), Some(h)) matches Some(v) && v.len() == 3
            && v[0] == ".jump.toml"@
            && v[1] == path_join(c, "jump/config.toml"@)
            && v[2] == path_join(h, ".config/jump/config.toml"@)
            && has_prefix(v[1], c) && has_suffix(v[1], "jump/config.toml"@)
            && has_prefix(v[2], h) && has_suffix(v[2], ".config/jump/config.toml"@),
{
    reveal_strlit("jump/config.toml");
    reveal_strlit(".config/jump/config.toml");
    lemma_join_extends(c, "jump/config.toml"@);
    lemma_join_extends(h, ".config/jump/config.toml"@);
}

/// Without a configuration or home directory there is nowhere to look.
pub proof fn law_no_locations_without_dirs(c: Option<Seq<char>>, h: Option<Seq<char>>)
    requires
        c is None || h is None,
    ensures
        config_locations_for(c, h) is None,
{
}
} // verus!
