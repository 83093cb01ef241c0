use dynisland::app::{App, BackendServerCommand};
use dynisland::bus::{ActivityIdentifier, UiServerCommand};
use dynisland::config::{Config, GeneralConfig, LoadedModules};
use dynisland::registry::Module;

fn config_with(
    modules: Vec<(&str, &str)>,
    layouts: Vec<(&str, &str)>,
    height: u32,
) -> Config {
    let mut c = Config::default();
    c.loaded_modules = LoadedModules::All;
    c.module_config = modules
        .into_iter()
        .map(|(k, v)| (k.to_string(), v.to_string()))
        .collect();
    c.layout_configs = layouts
        .into_iter()
        .map(|(k, v)| (k.to_string(), v.to_string()))
        .collect();
    c.general_style_config = GeneralConfig { minimal_height: height, blur_radius_bits: 0 };
    c
}

fn loaded_app() -> App {
    let mut app = App::new("simple".to_string());
    let plan = vec!["clock".to_string(), "battery".to_string()];
    let ok = vec![true, true];
    app.load_modules(&plan, &ok);
    app
}

#[test]
fn a_default_host_is_empty_and_well_formed() {
    let app = App::default();
    assert_eq!(app.registry.len(), 0);
    assert!(app.module_order.is_empty());
    assert!(app.style.active_css.is_none());
    assert!(app.config.check_wf());
    assert_eq!(app.layout.name.as_str(), "simple");
}

#[test]
fn failed_parse_keeps_the_previous_config_intact() {
    let mut app = loaded_app();
    let cfg = config_with(vec![("clock", "format: 24h")], vec![("simple", "gaps: 2")], 40);
    app.load_configs(Some(cfg));
    app.load_configs(None);
    // Field for field, the configuration is the pre-reload value.
    assert!(matches!(app.config.loaded_modules, LoadedModules::All));
    assert_eq!(app.config.module_config.len(), 1);
    assert_eq!(app.config.module_config[0].0.as_str(), "clock");
    assert_eq!(app.config.module_config[0].1.as_str(), "format: 24h");
    assert_eq!(app.config.layout_configs.len(), 1);
    assert_eq!(app.config.layout_configs[0].1.as_str(), "gaps: 2");
    assert_eq!(app.config.general_style_config.minimal_height, 40);
}

#[test]
fn pushed_blobs_read_back_unchanged() {
    // The blob written to disk for a module comes back identical through
    // the module's own accessor.
    let mut app = loaded_app();
    let cfg = config_with(vec![("clock", "format: 24h")], vec![], 0);
    app.load_configs(Some(cfg));
    let clock = app.registry.get(&"clock".to_string()).unwrap();
    assert_eq!(clock.get_config().as_deref(), Some("format: 24h"));
    // A module without an entry is skipped, not failed.
    let battery = app.registry.get(&"battery".to_string()).unwrap();
    assert!(battery.get_config().is_none());
}

#[test]
fn update_config_round_trips_on_a_module() {
    let mut m = Module::new("clock".to_string());
    m.update_config("format: 24h".to_string());
    assert_eq!(m.get_config().as_deref(), Some("format: 24h"));
}

#[test]
fn the_reload_sequence_runs_every_step() {
    let mut app = loaded_app();
    app.handle_ui_command(UiServerCommand::AddActivity {
        activity: ActivityIdentifier {
            module: "clock".to_string(),
            activity: "face".to_string(),
        },
        widget: 1,
    });
    let cfg = config_with(vec![("clock", "format: 12h")], vec![("simple", "gaps: 4")], 64);
    app.handle_server_command(
        BackendServerCommand::ReloadConfig(),
        Some(cfg),
        true,
        Some("a { color: red; }".to_string()),
    );
    // New configuration adopted and pushed.
    assert_eq!(app.config.general_style_config.minimal_height, 64);
    let clock = app.registry.get(&"clock".to_string()).unwrap();
    assert_eq!(clock.get_config().as_deref(), Some("format: 12h"));
    // General style re-applied to the registered activity.
    assert_eq!(app.layout.activities[0].applied_style.minimal_height, 64);
    // Layout took its sub-tree.
    assert_eq!(app.layout.active_config.as_deref(), Some("gaps: 4"));
    // Producers restarted for every module.
    for m in &app.registry.entries {
        assert!(m.producers.running);
    }
    // Order is stable across reloads.
    let order: Vec<&str> = app.module_order.iter().map(|s| s.as_str()).collect();
    assert_eq!(order, vec!["clock", "battery"]);
}

#[test]
fn a_failed_parse_aborts_the_whole_reload() {
    let mut app = loaded_app();
    let cfg = config_with(vec![("clock", "format: 24h")], vec![("simple", "gaps: 2")], 40);
    app.handle_server_command(BackendServerCommand::ReloadConfig(), Some(cfg), true, None);
    // A reload with an unparsable file changes nothing: later steps are
    // skipped even when a compiled stylesheet is on hand.
    app.handle_server_command(
        BackendServerCommand::ReloadConfig(),
        None,
        true,
        Some("a { color: blue; }".to_string()),
    );
    assert_eq!(app.config.general_style_config.minimal_height, 40);
    assert_eq!(app.config.module_config[0].1.as_str(), "format: 24h");
    assert_eq!(app.layout.active_config.as_deref(), Some("gaps: 2"));
    assert!(app.style.active_css.is_none());
    let clock = app.registry.get(&"clock".to_string()).unwrap();
    assert_eq!(clock.get_config().as_deref(), Some("format: 24h"));
}

#[test]
fn restarting_twice_leaves_one_run() {
    let mut app = loaded_app();
    app.restart_producer_rt();
    app.restart_producer_rt();
    for m in &app.registry.entries {
        assert!(m.producers.running);
    }
}

#[test]
fn startup_initializes_each_module_once_after_config() {
    let mut app = App::new("simple".to_string());
    app.load_configs(Some(config_with(vec![("clock", "format: 24h")], vec![], 30)));
    let plan = vec!["clock".to_string(), "battery".to_string()];
    let ok = vec![true, true];
    let cfg = config_with(vec![("clock", "format: 24h")], vec![], 30);
    app.initialize_server(Some(cfg), &plan, &ok, false, Some("a { color: red; }".to_string()));
    assert_eq!(app.registry.len(), 2);
    for m in &app.registry.entries {
        assert!(m.inited);
        assert!(m.producers.running);
    }
    let clock = app.registry.get(&"clock".to_string()).unwrap();
    assert_eq!(clock.get_config().as_deref(), Some("format: 24h"));
}

#[test]
fn ui_commands_add_and_remove_activities() {
    let mut app = loaded_app();
    let id = || ActivityIdentifier {
        module: "clock".to_string(),
        activity: "face".to_string(),
    };
    app.handle_ui_command(UiServerCommand::AddActivity { activity: id(), widget: 9 });
    assert_eq!(app.layout.activities.len(), 1);
    assert_eq!(app.layout.activities[0].widget, 9);
    // Adding the same identifier again replaces, never duplicates.
    app.handle_ui_command(UiServerCommand::AddActivity { activity: id(), widget: 10 });
    assert_eq!(app.layout.activities.len(), 1);
    assert_eq!(app.layout.activities[0].widget, 10);
    app.handle_ui_command(UiServerCommand::RemoveActivity { activity: id() });
    assert_eq!(app.layout.activities.len(), 0);
}

#[test]
fn layout_without_an_entry_keeps_its_defaults() {
    let mut app = loaded_app();
    let cfg = config_with(vec![], vec![("other_layout", "gaps: 9")], 0);
    app.load_configs(Some(cfg));
    assert!(app.layout_config_blob().is_none());
    app.load_layout_config(true);
    assert!(app.layout.active_config.is_none());
}

#[test]
fn layout_parse_failure_keeps_the_previous_layout_config() {
    let mut app = loaded_app();
    let cfg = config_with(vec![], vec![("simple", "gaps: 2")], 0);
    app.load_configs(Some(cfg));
    assert_eq!(app.layout_config_blob().map(|s| s.as_str()), Some("gaps: 2"));
    app.load_layout_config(true);
    assert_eq!(app.layout.active_config.as_deref(), Some("gaps: 2"));
    let cfg2 = config_with(vec![], vec![("simple", "gaps: broken")], 0);
    app.load_configs(Some(cfg2));
    app.load_layout_config(false);
    assert_eq!(app.layout.active_config.as_deref(), Some("gaps: 2"));
}

#[test]
fn stylesheet_compiles_and_installs() {
    let mut app = loaded_app();
    let compiled =
        grass::from_string("a { b { color: red; } }".to_string(), &grass::Options::default()).ok();
    assert!(compiled.is_some());
    let installed = app.load_css(compiled);
    assert!(installed);
    let css = app.style.active_css.clone().unwrap();
    assert!(css.contains("a b"));
    assert!(css.contains("color: red"));
}

#[test]
fn stylesheet_compile_failure_keeps_the_previous_style() {
    let mut app = loaded_app();
    assert!(app.load_css(Some("a { color: red; }".to_string())));
    let before = app.style.active_css.clone().unwrap();
    let failed = grass::from_string(
        "@use \"missing_stylesheet_module\";".to_string(),
        &grass::Options::default(),
    )
    .ok();
    assert!(failed.is_none());
    assert!(!app.load_css(failed));
    assert_eq!(app.style.active_css.as_deref(), Some(before.as_str()));
}
