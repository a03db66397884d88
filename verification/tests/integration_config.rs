//! Configuration defaults and loading decisions.

use jump::config::loader::ConfigError;
use jump::{ConfigLoader, JumpConfig};

#[test]
fn loads_default_config_when_file_missing() {
    let config = JumpConfig::default();

    assert!(config.marker_files.contains(&"Cargo.toml".to_string()));
    assert!(config.marker_files.contains(&".git".to_string()));
    assert_eq!(config.max_depth, 5);
    assert!(config.projects.is_empty());
}

#[test]
fn config_search_paths_default_to_home_programming() {
    let config = JumpConfig::default();

    // Should have at least one search path
    assert!(!config.search_paths.is_empty());
}

#[test]
fn test_default_config() {
    let config = JumpConfig::default();
    assert_eq!(config.max_depth, 5);
    assert!(config.marker_files.contains(&"Cargo.toml".to_string()));
    assert!(config.projects.is_empty());
}

#[test]
fn test_load_or_default_missing_file() {
    // Reading "/nonexistent/path.toml" fails, so the loader gets an error.
    let failed = Err(ConfigError {
        message: "Failed to read config from \"/nonexistent/path.toml\"".to_string(),
    });
    let config = ConfigLoader::load_or_default(Some(failed));
    assert_eq!(config.max_depth, 5);
}

#[test]
fn load_or_default_keeps_loaded_config() {
    let mut loaded = JumpConfig::default_for_home(None);
    loaded.max_depth = 3;
    let config = ConfigLoader::load_or_default(Some(Ok(loaded)));
    assert_eq!(config.max_depth, 3);
}

#[test]
fn load_or_default_without_file_is_default() {
    let config = ConfigLoader::load_or_default(None);
    assert_eq!(config.max_depth, 5);
    assert_eq!(config.marker_files.len(), 5);
}

#[test]
fn find_and_load_drops_errors() {
    let failed = Err(ConfigError { message: "bad toml".to_string() });
    assert!(ConfigLoader::find_and_load(Some(failed)).is_none());
    assert!(ConfigLoader::find_and_load(None).is_none());
    let found = ConfigLoader::find_and_load(Some(Ok(JumpConfig::default_for_home(None))));
    assert_eq!(found.map(|c| c.max_depth), Some(5));
}

#[test]
fn default_search_path_is_home_programming() {
    let config = JumpConfig::default_for_home(Some("/home/alice".to_string()));
    assert_eq!(config.search_paths, vec!["/home/alice/programming".to_string()]);
    let config = JumpConfig::default_for_home(Some("/home/bob/".to_string()));
    assert_eq!(config.search_paths, vec!["/home/bob/programming".to_string()]);
    let config = JumpConfig::default_for_home(None);
    assert!(config.search_paths.is_empty());
}

#[test]
fn default_search_paths_come_from_home_dir() {
    let paths = jump::config::types::default_search_paths();
    assert!(paths.len() <= 1);
    if let Some(p) = paths.first() {
        assert!(p.ends_with("/programming"));
    }
}

#[test]
fn default_markers_in_order() {
    assert_eq!(
        jump::config::types::default_marker_files(),
        vec!["Cargo.toml", "package.json", "go.mod", "pyproject.toml", ".git"]
    );
    assert_eq!(jump::config::types::default_max_depth(), 5);
}

#[test]
fn config_is_looked_for_in_three_places_when_both_directories_are_known() {
    assert_eq!(
        ConfigLoader::config_locations(Some("/home/u/.config".to_string()), Some("/home/u".to_string())),
        Some(vec![
            ".jump.toml".to_string(),
            "/home/u/.config/jump/config.toml".to_string(),
            "/home/u/.config/jump/config.toml".to_string(),
        ])
    );
    assert_eq!(ConfigLoader::config_locations(None, Some("/home/u".to_string())), None);
    assert_eq!(ConfigLoader::config_locations(Some("/c/".to_string()), None), None);
}

#[test]
fn config_candidates_start_with_local_file() {
    if let Some(candidates) = ConfigLoader::config_file_candidates() {
        assert_eq!(candidates.len(), 3);
        assert_eq!(candidates[0], ".jump.toml");
        assert!(candidates[1].ends_with("jump/config.toml"));
        assert!(candidates[2].ends_with(".config/jump/config.toml"));
    }
}
