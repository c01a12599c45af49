use bday::config::{config_candidates, first_existing, ConfigFile, ConfigLocation};

fn locations(v: &[(ConfigLocation, String)]) -> Vec<ConfigLocation> {
    v.iter().map(|c| c.0).collect()
}

#[test]
fn search_order_with_all_directories() {
    let config_dir = Some("/cfg".to_string());
    let home = Some("/home/u".to_string());
    let c = config_candidates(&config_dir, &home);
    assert_eq!(
        locations(&c),
        vec![
            ConfigLocation::WorkingDir,
            ConfigLocation::ConfigDir,
            ConfigLocation::HomeConfigDir,
            ConfigLocation::Home
        ]
    );
    assert_eq!(c[0].1, "./bday.toml");
    assert_eq!(c[1].1, "/cfg/bday.toml");
    assert_eq!(c[2].1, "/home/u/.config/bday.toml");
    assert_eq!(c[3].1, "/home/u/.bday.toml");
}

#[test]
fn search_order_without_directories() {
    let c = config_candidates(&None, &None);
    assert_eq!(locations(&c), vec![ConfigLocation::WorkingDir]);
    let c = config_candidates(&None, &Some("/h".to_string()));
    assert_eq!(locations(&c), vec![ConfigLocation::WorkingDir, ConfigLocation::HomeConfigDir, ConfigLocation::Home]);
}

#[test]
fn default_path_prefers_config_dir() {
    let (loc, path) = ConfigFile::default_path(&Some("/cfg".to_string()));
    assert_eq!(loc, ConfigLocation::ConfigDir);
    assert_eq!(path, "/cfg/bday.toml");
    let (loc, path) = ConfigFile::default_path(&None);
    assert_eq!(loc, ConfigLocation::FallbackConfigDir);
    assert_eq!(path, "~/.config/bday.toml");
}

#[test]
fn first_existing_file_wins() {
    assert_eq!(first_existing(&vec![false, true, true]), Some(1));
    assert_eq!(first_existing(&vec![false, false]), None);
    assert_eq!(first_existing(&vec![]), None);
}

#[test]
fn default_file_is_empty_at_the_default_place() {
    let f = ConfigFile::default();
    assert!(f.config.birthdays.is_empty());
    assert!(f.path.ends_with("/bday.toml"));
}
