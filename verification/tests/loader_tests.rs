use dynisland::app::App;
use dynisland::config::LoadedModules;
use dynisland::loader::{build_constructor_map, has_library_extension, FileScan};

fn valid(name: &str, builder: u64) -> FileScan {
    FileScan::Valid { name: name.to_string(), builder }
}

#[test]
fn extension_check_accepts_shared_objects() {
    assert!(has_library_extension("libexample_module.so"));
    assert!(has_library_extension("a.so"));
    assert!(!has_library_extension("notes.txt"));
    assert!(!has_library_extension("so"));
    assert!(!has_library_extension(".so"));
    assert!(!has_library_extension(""));
    assert!(!has_library_extension("module.so.bak"));
}

#[test]
fn map_has_one_entry_per_valid_file() {
    // Two valid files among three invalid ones: the scan never aborts and
    // the constructor map has exactly two entries.
    let scans = vec![
        valid("clock", 1),
        FileScan::Invalid,
        valid("battery", 2),
        FileScan::Invalid,
        FileScan::Invalid,
    ];
    let map = build_constructor_map(&scans);
    assert_eq!(map.len(), 2);
    let names: Vec<&str> = map.iter().map(|e| e.0.as_str()).collect();
    assert!(names.contains(&"clock"));
    assert!(names.contains(&"battery"));
}

#[test]
fn map_of_no_valid_files_is_empty() {
    let scans = vec![FileScan::Invalid, FileScan::Invalid];
    let map = build_constructor_map(&scans);
    assert_eq!(map.len(), 0);
}

#[test]
fn colliding_names_keep_the_last_discovered() {
    let scans = vec![valid("clock", 1), valid("clock", 2)];
    let map = build_constructor_map(&scans);
    assert_eq!(map.len(), 1);
    assert_eq!(map[0].0.as_str(), "clock");
    assert_eq!(map[0].1, 2);
}

#[test]
fn explicit_list_filters_to_discovered_in_order() {
    // Configured ["b", "x", "a"] with discovery {a, b} yields ["b", "a"].
    let mut app = App::new("layout".to_string());
    app.config.loaded_modules =
        LoadedModules::List(vec!["b".to_string(), "x".to_string(), "a".to_string()]);
    let scans = vec![valid("a", 1), valid("b", 2)];
    let plan = app.plan_modules(&scans);
    let names: Vec<&str> = plan.iter().map(|s| s.as_str()).collect();
    assert_eq!(names, vec!["b", "a"]);
}

#[test]
fn all_mode_plans_every_discovered_name() {
    let mut app = App::new("layout".to_string());
    app.config.loaded_modules = LoadedModules::All;
    let scans = vec![valid("a", 1), FileScan::Invalid, valid("b", 2)];
    let plan = app.plan_modules(&scans);
    assert_eq!(plan.len(), 2);
    let names: Vec<&str> = plan.iter().map(|s| s.as_str()).collect();
    assert!(names.contains(&"a"));
    assert!(names.contains(&"b"));
}

#[test]
fn explicit_mode_end_to_end_with_one_failed_constructor() {
    let mut app = App::new("layout".to_string());
    app.config.loaded_modules =
        LoadedModules::List(vec!["b".to_string(), "x".to_string(), "a".to_string()]);
    let scans = vec![valid("a", 1), valid("b", 2)];
    let plan = app.plan_modules(&scans);
    let ok = vec![true, false];
    app.load_modules(&plan, &ok);
    let order: Vec<&str> = app.module_order.iter().map(|s| s.as_str()).collect();
    assert_eq!(order, vec!["b"]);
}

#[test]
fn failed_constructors_are_excluded_and_loading_continues() {
    let mut app = App::new("layout".to_string());
    let plan = vec!["a".to_string(), "b".to_string(), "c".to_string()];
    let ok = vec![true, false, true];
    app.load_modules(&plan, &ok);
    let order: Vec<&str> = app.module_order.iter().map(|s| s.as_str()).collect();
    assert_eq!(order, vec!["a", "c"]);
    assert_eq!(app.registry.len(), 2);
    assert!(app.registry.get(&"a".to_string()).is_some());
    assert!(app.registry.get(&"b".to_string()).is_none());
    assert!(app.registry.get(&"c".to_string()).is_some());
}
