use zone_presets::model::{Action, GroupingSettings, Output, Preset, Volume, VolumeType};
use zone_presets::reducer::{load_preset, store_preset, store_volume};

fn output(id: &str, name: &str, min: i32, max: i32, value: i32) -> Output {
    Output {
        output_id: id.to_string(),
        display_name: name.to_string(),
        can_group_with_output_ids: Vec::new(),
        volume: Volume { min, max, value },
    }
}

#[test]
fn create_preset_from_blank_form() {
    let mut settings = GroupingSettings::default();
    settings.add = Some("B".to_string());
    settings.primary_output_id = Some("A".to_string());
    settings.name = "Kitchen".to_string();
    settings.selected = Some(0);
    let r = store_preset(&mut settings);
    assert!(r.is_some());
    assert_eq!(settings.presets.len(), 1);
    assert_eq!(settings.presets[0].name, "Kitchen");
    assert_eq!(settings.presets[0].output_ids, vec!["A".to_string(), "B".to_string()]);
    assert!(matches!(settings.presets[0].volume_type, VolumeType::Untouched));
    assert!(settings.presets[0].volumes.is_empty());
    assert_eq!(settings.selected, Some(0));
}

#[test]
fn store_preset_twice_appends_nothing() {
    let mut settings = GroupingSettings::default();
    settings.add = Some("B".to_string());
    settings.primary_output_id = Some("A".to_string());
    settings.name = "Den".to_string();
    settings.selected = Some(0);
    store_preset(&mut settings);
    let once = settings.output_ids.clone();
    let once_presets = settings.presets.len();
    store_preset(&mut settings);
    assert_eq!(settings.output_ids, once);
    assert_eq!(settings.presets.len(), once_presets);
    assert_eq!(settings.presets[0].output_ids, vec!["A".to_string(), "B".to_string()]);
}

#[test]
fn store_preset_needs_candidate_and_primary() {
    let mut settings = GroupingSettings::default();
    settings.name = "Kitchen".to_string();
    settings.selected = Some(0);
    assert!(store_preset(&mut settings).is_none());
    assert!(settings.presets.is_empty());
}

#[test]
fn store_preset_without_name_normalizes_but_stores_nothing() {
    let mut settings = GroupingSettings::default();
    settings.add = Some("B".to_string());
    settings.primary_output_id = Some("A".to_string());
    settings.selected = Some(0);
    assert!(store_preset(&mut settings).is_none());
    assert_eq!(settings.output_ids, vec!["A".to_string(), "B".to_string()]);
    assert!(settings.presets.is_empty());
}

#[test]
fn store_preset_edits_in_place() {
    let mut settings = GroupingSettings::default();
    settings.presets.push(Preset {
        name: "Old".to_string(),
        output_ids: vec!["X".to_string()],
        volume_type: VolumeType::Preset,
        volumes: vec![("X".to_string(), 10)],
    });
    settings.add = Some("B".to_string());
    settings.primary_output_id = Some("A".to_string());
    settings.name = "New".to_string();
    settings.selected = Some(0);
    settings.output_ids = vec!["A".to_string()];
    let r = store_preset(&mut settings);
    assert!(r.is_some());
    assert_eq!(settings.presets.len(), 1);
    assert_eq!(settings.presets[0].name, "New");
    assert_eq!(settings.presets[0].output_ids, vec!["A".to_string(), "B".to_string()]);
    assert!(matches!(settings.presets[0].volume_type, VolumeType::Untouched));
    assert!(settings.presets[0].volumes.is_empty());
}

#[test]
fn store_volume_records_parsed_level() {
    let outputs = vec![output("A", "Living Room", 0, 100, 30)];
    let mut settings = GroupingSettings::default();
    settings.presets.push(Preset {
        name: "P".to_string(),
        output_ids: vec!["A".to_string()],
        volume_type: VolumeType::Untouched,
        volumes: vec![("A".to_string(), 10)],
    });
    settings.selected = Some(0);
    settings.volume_type = VolumeType::Preset;
    settings.volume_output_id = Some("A".to_string());
    settings.volume_level = "42".to_string();
    let r = store_volume(&mut settings, &outputs);
    assert!(r.is_some());
    assert_eq!(settings.presets[0].volumes, vec![("A".to_string(), 42)]);
    assert!(matches!(settings.presets[0].volume_type, VolumeType::Preset));
}

#[test]
fn store_volume_seeds_level_from_live_value() {
    let outputs = vec![output("A", "Living Room", 0, 100, 30)];
    let mut settings = GroupingSettings::default();
    settings.presets.push(Preset {
        name: "P".to_string(),
        output_ids: vec!["A".to_string()],
        volume_type: VolumeType::Untouched,
        volumes: Vec::new(),
    });
    settings.selected = Some(0);
    settings.volume_type = VolumeType::Preset;
    settings.volume_output_id = Some("A".to_string());
    settings.volume_level = String::new();
    let r = store_volume(&mut settings, &outputs);
    assert!(r.is_some());
    assert_eq!(settings.volume_level, "30");
    assert_eq!(settings.presets[0].volumes, vec![("A".to_string(), 30)]);
}

#[test]
fn store_volume_leaves_captured_level_on_bad_text() {
    let outputs = vec![output("A", "Living Room", 0, 100, 30)];
    let mut settings = GroupingSettings::default();
    settings.presets.push(Preset {
        name: "P".to_string(),
        output_ids: vec!["A".to_string()],
        volume_type: VolumeType::Preset,
        volumes: vec![("A".to_string(), 55)],
    });
    settings.selected = Some(0);
    settings.volume_type = VolumeType::Preset;
    settings.volume_output_id = Some("A".to_string());
    settings.volume_level = "not a number".to_string();
    let r = store_volume(&mut settings, &outputs);
    assert!(r.is_none());
    assert_eq!(settings.presets[0].volumes, vec![("A".to_string(), 55)]);
}

#[test]
fn load_preset_repopulates_form() {
    let outputs = vec![output("A", "Living Room", 0, 100, 30)];
    let mut settings = GroupingSettings::default();
    settings.presets.push(Preset {
        name: "Morning".to_string(),
        output_ids: vec!["A".to_string(), "B".to_string()],
        volume_type: VolumeType::Untouched,
        volumes: Vec::new(),
    });
    settings.selected = Some(0);
    settings.name = "stale".to_string();
    settings.add = Some("stale".to_string());
    settings.action = Action::Delete;
    load_preset(&mut settings, &outputs);
    assert_eq!(settings.name, "Morning");
    assert_eq!(settings.primary_output_id, Some("A".to_string()));
    assert_eq!(settings.output_ids, vec!["A".to_string(), "B".to_string()]);
    assert_eq!(settings.add, Some("A".to_string()));
    assert!(matches!(settings.action, Action::Edit));
}

#[test]
fn load_preset_shows_captured_volume() {
    let outputs = vec![output("A", "Living Room", 0, 100, 30)];
    let mut settings = GroupingSettings::default();
    settings.presets.push(Preset {
        name: "Morning".to_string(),
        output_ids: vec!["A".to_string()],
        volume_type: VolumeType::Preset,
        volumes: vec![("A".to_string(), 64)],
    });
    settings.selected = Some(0);
    settings.volume_output_id = Some("A".to_string());
    load_preset(&mut settings, &outputs);
    assert_eq!(settings.volume_level, "64");
}

#[test]
fn load_preset_captures_live_volume_when_none_stored() {
    let outputs = vec![output("A", "Living Room", 0, 100, 30)];
    let mut settings = GroupingSettings::default();
    settings.presets.push(Preset {
        name: "Morning".to_string(),
        output_ids: vec!["A".to_string()],
        volume_type: VolumeType::Preset,
        volumes: Vec::new(),
    });
    settings.selected = Some(0);
    settings.volume_output_id = Some("A".to_string());
    load_preset(&mut settings, &outputs);
    assert_eq!(settings.volume_level, "30");
    assert_eq!(settings.presets[0].volumes, vec![("A".to_string(), 30)]);
}

#[test]
fn load_preset_prefers_extracted_for_new_slot() {
    let outputs: Vec<Output> = Vec::new();
    let mut settings = GroupingSettings::default();
    settings.extracted_preset = Some(Preset {
        name: "Ad hoc".to_string(),
        output_ids: vec!["A".to_string(), "B".to_string()],
        volume_type: VolumeType::Untouched,
        volumes: Vec::new(),
    });
    settings.selected = Some(0);
    settings.action = Action::Delete;
    load_preset(&mut settings, &outputs);
    assert_eq!(settings.name, "Ad hoc");
    assert_eq!(settings.primary_output_id, Some("A".to_string()));
    assert_eq!(settings.add, Some("A".to_string()));
    assert!(matches!(settings.action, Action::Edit));
}

#[test]
fn load_preset_blanks_form_for_new_preset() {
    let outputs: Vec<Output> = Vec::new();
    let mut settings = GroupingSettings::default();
    settings.selected = Some(0);
    settings.name = "stale".to_string();
    settings.primary_output_id = Some("stale".to_string());
    settings.output_ids = vec!["stale".to_string()];
    load_preset(&mut settings, &outputs);
    assert_eq!(settings.name, "");
    assert_eq!(settings.primary_output_id, None);
    assert!(settings.output_ids.is_empty());
    assert!(matches!(settings.action, Action::Edit));
}
