use std::collections::HashMap;

use bitplane::directories::{Directories, DirectoryOverrides, Environment};
use bitplane::plane_id::PlaneId;

struct FakeEnvironment {
    home: String,
    variables: HashMap<String, String>,
}

impl FakeEnvironment {
    fn at(home: &str) -> FakeEnvironment {
        FakeEnvironment { home: home.to_owned(), variables: HashMap::new() }
    }

    fn with(mut self, key: &str, value: &str) -> FakeEnvironment {
        self.variables.insert(key.to_owned(), value.to_owned());
        self
    }
}

impl Environment for FakeEnvironment {
    fn var(&self, key: &str) -> Option<String> {
        self.variables.get(key).filter(|value| !value.is_empty()).cloned()
    }

    fn home(&self) -> Option<String> {
        Some(self.home.clone())
    }
}

#[test]
fn the_defaults_are_a_visible_planes_directory_and_an_xdg_projects_directory() {
    let environment = FakeEnvironment::at("/home/alfonz");

    let directories = Directories::resolve(&DirectoryOverrides::default(), &environment, None).unwrap();

    assert_eq!(directories.planes(), "/home/alfonz/planes");
    assert_eq!(directories.projects(), "/home/alfonz/.local/share/bitplane/projects");
}

#[test]
fn xdg_is_honoured_when_it_is_set() {
    let environment = FakeEnvironment::at("/home/alfonz").with("XDG_DATA_HOME", "/data");

    let directories = Directories::resolve(&DirectoryOverrides::default(), &environment, None).unwrap();

    assert_eq!(directories.projects(), "/data/bitplane/projects", "a developer who has set XDG_DATA_HOME means it");
}

#[test]
fn the_environment_beats_the_default() {
    let environment = FakeEnvironment::at("/home/alfonz")
        .with("BITPLANE_PLANES_DIR", "/work/planes")
        .with("BITPLANE_PROJECTS_DIR", "/work/projects");

    let directories = Directories::resolve(&DirectoryOverrides::default(), &environment, None).unwrap();

    assert_eq!(directories.planes(), "/work/planes");
    assert_eq!(directories.projects(), "/work/projects");
}

#[test]
fn a_missing_config_file_is_not_an_error() {
    let environment = FakeEnvironment::at("/home/alfonz").with("BITPLANE_CONFIG", "/nowhere/config.toml");

    let directories = Directories::resolve(&DirectoryOverrides::default(), &environment, None).unwrap();

    assert_eq!(directories.planes(), "/home/alfonz/planes");
}

#[test]
fn an_empty_environment_variable_is_unset_rather_than_the_current_directory() {
    let environment = FakeEnvironment::at("/home/alfonz").with("BITPLANE_PLANES_DIR", "");

    let directories = Directories::resolve(&DirectoryOverrides::default(), &environment, None).unwrap();

    assert_eq!(directories.planes(), "/home/alfonz/planes");
}

#[test]
fn a_plane_directory_is_the_planes_directory_plus_the_id() {
    let directories = Directories::new("/home/alfonz/planes", "/data/projects");
    let id = PlaneId::parse("bp-a3f9c2e1").unwrap();

    assert_eq!(directories.plane(&id), "/home/alfonz/planes/bp-a3f9c2e1");
}

#[test]
fn the_flag_beats_the_environment_and_the_config() {
    let environment = FakeEnvironment::at("/home/alfonz").with("BITPLANE_PLANES_DIR", "/from-environment");
    let overrides = DirectoryOverrides { planes_dir: Some("/from-the-flag".to_owned()), ..DirectoryOverrides::default() };

    let directories =
        Directories::resolve(&overrides, &environment, Some("version = 1\nplanes_dir = \"/from-config\"\n")).unwrap();

    assert_eq!(directories.planes(), "/from-the-flag");
}

#[test]
fn the_config_beats_the_default_and_expands_a_leading_tilde() {
    let environment = FakeEnvironment::at("/home/alfonz");

    let directories =
        Directories::resolve(&DirectoryOverrides::default(), &environment, Some("version = 1\nplanes_dir = \"~/work/planes\"\n"))
            .unwrap();

    assert_eq!(directories.planes(), "/home/alfonz/work/planes");
}

#[test]
fn an_unknown_key_in_the_config_is_refused_naming_it_and_the_legal_ones() {
    let environment = FakeEnvironment::at("/home/alfonz").with("BITPLANE_CONFIG", "/etc/bp/config.toml");

    let error =
        Directories::resolve(&DirectoryOverrides::default(), &environment, Some("version = 1\nplane_dir = \"/typo\"\n")).unwrap_err();

    let envelope = error.envelope();
    assert_eq!(envelope.error, "parse_error");
    assert!(envelope.message.contains("plane_dir"), "got {}", envelope.message);
    assert!(envelope.message.starts_with("/etc/bp/config.toml"), "got {}", envelope.message);
    assert_eq!(envelope.remedy.as_deref(), Some("Legal keys are version, planes_dir and projects_dir."));
}

#[test]
fn the_config_is_looked_for_under_xdg_config_home() {
    let environment = FakeEnvironment::at("/home/alfonz");
    let ambient = bitplane::directories::Ambient::of(&environment);

    assert_eq!(
        Directories::config_path(&DirectoryOverrides::default(), &ambient).unwrap(),
        "/home/alfonz/.config/bitplane/config.toml"
    );
}
