use dynisland::config::{Config, GeneralConfig, LoadedModules};
use dynisland::table::{check_keys_unique, contains_key, lookup_index};

#[test]
fn raw_list_with_sentinel_means_all() {
    let raw = vec!["clock".to_string(), "all".to_string()];
    assert!(matches!(LoadedModules::from_raw(raw), LoadedModules::All));
}

#[test]
fn raw_list_without_sentinel_stays_a_list() {
    let raw = vec!["clock".to_string(), "battery".to_string()];
    match LoadedModules::from_raw(raw) {
        LoadedModules::List(names) => {
            let names: Vec<&str> = names.iter().map(|s| s.as_str()).collect();
            assert_eq!(names, vec!["clock", "battery"]);
        }
        LoadedModules::All => panic!("sentinel reported where none was given"),
    }
}

#[test]
fn default_config_is_well_formed() {
    let c = Config::default();
    assert!(c.check_wf());
    assert!(matches!(c.loaded_modules, LoadedModules::All));
    assert_eq!(c.module_config.len(), 0);
    assert_eq!(c.layout_configs.len(), 0);
    assert_eq!(c.general_style_config.minimal_height, 0);
    assert_eq!(c.general_style_config.blur_radius_bits, 0);
}

#[test]
fn duplicate_keys_are_rejected() {
    let entries = vec![
        ("clock".to_string(), "a".to_string()),
        ("battery".to_string(), "b".to_string()),
        ("clock".to_string(), "c".to_string()),
    ];
    assert!(!check_keys_unique(&entries));
    let distinct = vec![
        ("clock".to_string(), "a".to_string()),
        ("battery".to_string(), "b".to_string()),
    ];
    assert!(check_keys_unique(&distinct));
}

#[test]
fn lookup_finds_the_entry_for_a_key() {
    let entries = vec![
        ("clock".to_string(), "blob-a".to_string()),
        ("battery".to_string(), "blob-b".to_string()),
    ];
    let i = lookup_index(&entries, &"battery".to_string()).unwrap();
    assert_eq!(entries[i].1.as_str(), "blob-b");
    assert!(lookup_index(&entries, &"missing".to_string()).is_none());
    assert!(contains_key(&entries, &"clock".to_string()));
    assert!(!contains_key(&entries, &"music".to_string()));
}

#[test]
fn general_config_carries_values_through() {
    let g = GeneralConfig { minimal_height: 40, blur_radius_bits: 4.5_f64.to_bits() };
    assert_eq!(g.minimal_height, 40);
    assert_eq!(f64::from_bits(g.blur_radius_bits), 4.5);
}
