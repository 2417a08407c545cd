use redixel::settings::{EngineSettings, SettingsValue, split_path};
use serde::de::DeserializeOwned;
use serde_json::Value;

fn leaf<T: Into<Value>>(value: T) -> SettingsValue<Value> {
    SettingsValue::Leaf(value.into())
}

/// The value at `path` read as a `T`, or `default` when it is missing or of
/// another type.
fn read<T: DeserializeOwned>(settings: &EngineSettings<Value>, path: &str, default: T) -> T {
    match settings.get_path(path) {
        Some(SettingsValue::Leaf(value)) => serde_json::from_value(value.clone()).unwrap_or(default),
        _ => default,
    }
}

fn keys(value: &SettingsValue<Value>) -> Vec<String> {
    match value {
        SettingsValue::Object(entries) => entries.iter().map(|(key, _)| key.clone()).collect(),
        SettingsValue::Leaf(_) => Vec::new(),
    }
}

#[test]
fn a_fresh_instance_falls_back_to_defaults_and_is_not_loaded() {
    let settings: EngineSettings<Value> = EngineSettings::default();

    assert_eq!(read(&settings, "window.width", 1280), 1280);
    assert!(!settings.is_loaded());
}

#[test]
fn set_path_then_get_path_returns_the_new_value() {
    let mut settings: EngineSettings<Value> = EngineSettings::default();
    settings.set_path("audio.master_volume", leaf(0.5_f64));

    assert_eq!(read(&settings, "audio.master_volume", 1.0_f64), 0.5);
}

#[test]
fn set_path_creates_missing_intermediate_objects() {
    let mut settings: EngineSettings<Value> = EngineSettings::default();
    settings.set_path("a.b.c", leaf(42));

    assert_eq!(read(&settings, "a.b.c", 0), 42);
}

#[test]
fn set_path_replaces_a_non_object_segment_with_an_object() {
    let mut settings: EngineSettings<Value> = EngineSettings::default();
    settings.set_path("a", leaf(5));
    settings.set_path("a.b", leaf(7));

    assert_eq!(read(&settings, "a.b", 0), 7);
}

#[test]
fn set_path_leaves_sibling_keys_alone() {
    let mut settings: EngineSettings<Value> = EngineSettings::default();
    settings.set_path("window.width", leaf(1280));
    settings.set_path("window.height", leaf(720));

    assert_eq!(read(&settings, "window.width", 0), 1280);
    assert_eq!(read(&settings, "window.height", 0), 720);
}

#[test]
fn a_value_of_another_type_falls_back_to_the_default() {
    let mut settings: EngineSettings<Value> = EngineSettings::new();
    settings.set_path("app.name", leaf("Redixel"));

    assert_eq!(read(&settings, "app.name", 0), 0);
    assert_eq!(read(&settings, "app.name", String::new()), "Redixel");
}

#[test]
fn a_path_through_a_leaf_reads_nothing() {
    let mut settings: EngineSettings<Value> = EngineSettings::new();
    settings.set_path("window", leaf(3));

    assert!(settings.get_path("window.width").is_none());
    assert!(settings.get_path("window").is_some());
}

#[test]
fn keys_keep_the_order_they_were_first_set_in() {
    let mut settings: EngineSettings<Value> = EngineSettings::new();
    settings.set_path("window.width", leaf(1280));
    settings.set_path("app.name", leaf("Redixel"));
    settings.set_path("audio.master_volume", leaf(0.5_f64));
    settings.set_path("window.width", leaf(640));

    let root: &SettingsValue<Value> = settings.data().expect("settings were set");
    assert_eq!(keys(root), vec!["window", "app", "audio"]);
    assert_eq!(read(&settings, "window.width", 0), 640);
}

#[test]
fn a_loaded_tree_is_read_and_marks_the_settings_loaded() {
    let mut settings: EngineSettings<Value> = EngineSettings::new();
    settings.load_value(SettingsValue::Object(vec![(
        String::from("engine"),
        SettingsValue::Object(vec![(String::from("tickrate"), leaf(30.0_f64))]),
    )]));

    assert!(settings.is_loaded());
    assert_eq!(read(&settings, "engine.tickrate", 60.0_f64), 30.0);
    assert_eq!(read(&settings, "engine.missing", 60.0_f64), 60.0);
}

#[test]
fn setting_a_path_keeps_the_loaded_flag() {
    let mut settings: EngineSettings<Value> = EngineSettings::new();
    settings.set_path("a", leaf(1));
    assert!(!settings.is_loaded());
}

#[test]
fn paths_split_at_every_dot() {
    assert_eq!(split_path("window.width"), vec!["window", "width"]);
    assert_eq!(split_path(""), vec![""]);
    assert_eq!(split_path("a..b."), vec!["a", "", "b", ""]);
    assert_eq!(split_path("plain"), vec!["plain"]);
}

#[test]
fn a_failed_load_leaves_the_settings_unloaded() {
    let mut settings: EngineSettings<Value> = EngineSettings::default();
    let read_failure: Result<SettingsValue<Value>, &str> = Err("no such file");

    assert_eq!(settings.finish_load(read_failure), Err("no such file"));
    assert!(!settings.is_loaded());
    assert!(settings.get_path("window.width").is_none());
}

#[test]
fn a_successful_load_installs_the_tree() {
    let mut settings: EngineSettings<Value> = EngineSettings::default();
    let tree: SettingsValue<Value> = SettingsValue::Object(vec![(String::from("width"), leaf(640))]);

    assert_eq!(settings.finish_load(Ok::<SettingsValue<Value>, &str>(tree)), Ok(()));
    assert!(settings.is_loaded());
    assert_eq!(read(&settings, "width", 0), 640);
}

#[test]
fn nested_keys_keep_their_order_and_new_ones_go_last() {
    let mut settings: EngineSettings<Value> = EngineSettings::default();
    settings.set_path("window.width", leaf(1280));
    settings.set_path("window.height", leaf(720));
    settings.set_path("window.title", leaf("a"));
    settings.set_path("window.width", leaf(640));

    let window: &SettingsValue<Value> = settings.get_path("window").expect("the window object exists");
    assert_eq!(keys(window), vec!["width", "height", "title"]);
    assert_eq!(read(&settings, "window.width", 0), 640);
}
