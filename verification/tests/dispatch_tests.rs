use zone_presets::model::{Action, GroupingSettings, Output, Preset, Volume, VolumeType};
use zone_presets::model::Zone;
use zone_presets::dispatch::{
    apply_settings_saved, handle_outputs, handle_save_request, handle_zones, handle_zones_removed,
    save_request_check, to_persisted, TransportCommand,
};

fn output(id: &str, name: &str, value: i32) -> Output {
    Output {
        output_id: id.to_string(),
        display_name: name.to_string(),
        can_group_with_output_ids: Vec::new(),
        volume: Volume { min: 0, max: 100, value },
    }
}

fn zone(id: &str, name: &str, outputs: &[&str]) -> Zone {
    Zone {
        zone_id: id.to_string(),
        display_name: name.to_string(),
        outputs: outputs.iter().map(|o| output(o, o, 50)).collect(),
    }
}

fn preset(name: &str, ids: &[&str], vt: VolumeType, volumes: &[(&str, i32)]) -> Preset {
    Preset {
        name: name.to_string(),
        output_ids: ids.iter().map(|s| s.to_string()).collect(),
        volume_type: vt,
        volumes: volumes.iter().map(|(k, v)| (k.to_string(), *v)).collect(),
    }
}

#[test]
fn activate_orders_volume_then_group_commands() {
    let mut settings = GroupingSettings::default();
    settings.presets.push(preset(
        "X",
        &["A", "B"],
        VolumeType::Preset,
        &[("A", 40), ("B", 60)],
    ));
    settings.selected = Some(0);
    settings.primary_output_id = Some("A".to_string());
    settings.output_ids = vec!["A".to_string(), "B".to_string()];
    settings.name = "X".to_string();
    settings.action = Action::Activate;
    let outcome = apply_settings_saved(&"X".to_string(), settings, &Vec::new());
    assert_eq!(outcome.commands.len(), 3);
    match &outcome.commands[0] {
        TransportCommand::ChangeVolume { output_id, value } => {
            assert_eq!(output_id, "A");
            assert_eq!(*value, 40);
        }
        _ => panic!("expected a volume command first"),
    }
    match &outcome.commands[1] {
        TransportCommand::ChangeVolume { output_id, value } => {
            assert_eq!(output_id, "B");
            assert_eq!(*value, 60);
        }
        _ => panic!("expected a volume command second"),
    }
    match &outcome.commands[2] {
        TransportCommand::Group(ids) => {
            assert_eq!(ids, &vec!["A".to_string(), "B".to_string()]);
        }
        _ => panic!("expected the grouping command last"),
    }
    assert_eq!(outcome.status, "Preset \"X\" activated");
    assert!(!outcome.clear_matched);
}

#[test]
fn activate_ungroups_live_adhoc_grouping_first() {
    let mut settings = GroupingSettings::default();
    settings.presets.push(preset("X", &["A", "B"], VolumeType::Untouched, &[]));
    settings.selected = Some(0);
    settings.primary_output_id = Some("A".to_string());
    settings.output_ids = vec!["A".to_string(), "B".to_string()];
    settings.name = "X".to_string();
    settings.action = Action::Activate;
    settings.extracted_preset = Some(preset("Ad hoc", &["C", "D"], VolumeType::Untouched, &[]));
    let outcome = apply_settings_saved(&"X".to_string(), settings, &Vec::new());
    assert_eq!(outcome.commands.len(), 2);
    match &outcome.commands[0] {
        TransportCommand::Ungroup(ids) => {
            assert_eq!(ids, &vec!["C".to_string(), "D".to_string()]);
        }
        _ => panic!("expected the ungroup command first"),
    }
    assert!(matches!(&outcome.commands[1], TransportCommand::Group(_)));
}

#[test]
fn deactivate_with_last_used_captures_live_volumes() {
    let outputs = vec![output("A", "Living Room", 77)];
    let mut settings = GroupingSettings::default();
    settings.presets.push(preset("X", &["A"], VolumeType::LastUsed, &[]));
    settings.selected = Some(0);
    settings.primary_output_id = Some("A".to_string());
    settings.output_ids = vec!["A".to_string()];
    settings.name = "X".to_string();
    settings.action = Action::Deactivate;
    let outcome = apply_settings_saved(&"X".to_string(), settings, &outputs);
    assert_eq!(outcome.settings.presets[0].volumes, vec![("A".to_string(), 77)]);
    let persisted = to_persisted(&outcome.settings);
    assert_eq!(persisted.presets[0].volumes, vec![("A".to_string(), 77)]);
    assert_eq!(outcome.commands.len(), 1);
    match &outcome.commands[0] {
        TransportCommand::Ungroup(ids) => assert_eq!(ids, &vec!["A".to_string()]),
        _ => panic!("expected the ungroup command"),
    }
    assert_eq!(outcome.status, "Preset \"X\" deactivated");
}

#[test]
fn delete_clears_match_and_reports() {
    let mut settings = GroupingSettings::default();
    settings.presets.push(preset("A preset", &["A"], VolumeType::Untouched, &[]));
    settings.presets.push(preset("X", &["B"], VolumeType::Untouched, &[]));
    settings.presets.push(preset("C preset", &["C"], VolumeType::Untouched, &[]));
    settings.selected = Some(1);
    settings.action = Action::Delete;
    settings.name = "X".to_string();
    let last = (Some(1), None);
    let (layout, new_last) = handle_save_request(settings, &Vec::new(), &last);
    assert_eq!(layout.settings.presets.len(), 2);
    assert_eq!(layout.settings.presets[0].name, "A preset");
    assert_eq!(layout.settings.presets[1].name, "C preset");
    assert_eq!(layout.settings.selected, None);
    assert_eq!(new_last, (None, None));
    let outcome = apply_settings_saved(&"X".to_string(), layout.settings, &Vec::new());
    assert!(outcome.commands.is_empty());
    assert!(outcome.clear_matched);
    assert_eq!(outcome.status, "Preset \"X\" deleted");
}

#[test]
fn edit_requests_fresh_zones() {
    let mut settings = GroupingSettings::default();
    settings.presets.push(preset("X", &["A"], VolumeType::Untouched, &[]));
    settings.selected = Some(0);
    settings.primary_output_id = Some("A".to_string());
    settings.name = "X".to_string();
    settings.action = Action::Edit;
    let outcome = apply_settings_saved(&"X".to_string(), settings, &Vec::new());
    assert_eq!(outcome.commands.len(), 1);
    assert!(matches!(outcome.commands[0], TransportCommand::RefreshZones));
    assert_eq!(outcome.status, "Settings saved");
}

#[test]
fn renaming_clears_the_match() {
    let mut settings = GroupingSettings::default();
    settings.name = "New name".to_string();
    let outcome = apply_settings_saved(&"Old name".to_string(), settings, &Vec::new());
    assert!(outcome.clear_matched);
    assert_eq!(outcome.status, "Settings saved");
}

#[test]
fn unchanged_selection_stores_the_edit() {
    let outputs = vec![output("A", "Living Room", 30), output("B", "Kitchen", 40)];
    let mut settings = GroupingSettings::default();
    settings.add = Some("B".to_string());
    settings.primary_output_id = Some("A".to_string());
    settings.name = "Kitchen".to_string();
    settings.selected = Some(0);
    let last = (Some(0), None);
    let (layout, _) = handle_save_request(settings, &outputs, &last);
    assert_eq!(layout.settings.presets.len(), 1);
    assert_eq!(layout.settings.presets[0].name, "Kitchen");
}

#[test]
fn changed_selection_reloads_the_form() {
    let outputs = vec![output("A", "Living Room", 30)];
    let mut settings = GroupingSettings::default();
    settings.presets.push(preset("Stored", &["A"], VolumeType::Untouched, &[]));
    settings.selected = Some(0);
    settings.name = "typed but discarded".to_string();
    let last = (None, None);
    let (layout, new_last) = handle_save_request(settings, &outputs, &last);
    assert_eq!(layout.settings.name, "Stored");
    assert_eq!(new_last, (Some(0), None));
}

#[test]
fn zones_update_matches_and_extracts() {
    let mut settings = GroupingSettings::default();
    settings.presets.push(preset("Pair", &["A", "B"], VolumeType::Untouched, &[]));
    let zones = vec![zone("z9", "Living pair", &["A", "B"])];
    let outcome = handle_zones(&mut settings, None, &zones);
    assert_eq!(outcome.matched_zone_id, Some("z9".to_string()));
    assert_eq!(
        outcome.status,
        Some("Grouped zone \"Living pair\" represents the \"Pair\" preset".to_string())
    );
    let extracted = settings.extracted_preset.unwrap();
    assert_eq!(extracted.name, "Living pair");
    assert_eq!(extracted.output_ids, vec!["A".to_string(), "B".to_string()]);
}

#[test]
fn zones_update_keeps_existing_match() {
    let mut settings = GroupingSettings::default();
    settings.presets.push(preset("Pair", &["A", "B"], VolumeType::Untouched, &[]));
    let zones = vec![zone("z9", "Living pair", &["A", "B"])];
    let outcome = handle_zones(&mut settings, Some("z1".to_string()), &zones);
    assert_eq!(outcome.matched_zone_id, Some("z1".to_string()));
    assert_eq!(outcome.status, None);
}

#[test]
fn removing_the_matched_zone_resets_status() {
    let removed = vec!["z1".to_string(), "z2".to_string()];
    let (matched, status) = handle_zones_removed(Some("z2".to_string()), &removed);
    assert_eq!(matched, None);
    assert_eq!(status, Some("No preset active".to_string()));
    let (matched, status) = handle_zones_removed(Some("z7".to_string()), &removed);
    assert_eq!(matched, Some("z7".to_string()));
    assert_eq!(status, None);
}

#[test]
fn outputs_update_upserts_by_id() {
    let mut cache = vec![output("A", "Living Room", 30)];
    let reported = vec![output("A", "Living Room", 55), output("B", "Kitchen", 40)];
    handle_outputs(&mut cache, &reported);
    assert_eq!(cache.len(), 2);
    assert_eq!(cache[0].output_id, "A");
    assert_eq!(cache[0].volume.value, 55);
    assert_eq!(cache[1].output_id, "B");
}

#[test]
fn save_request_check_accepts_a_servable_submission() {
    let outputs = vec![output("A", "Living Room", 30)];
    let mut settings = GroupingSettings::default();
    settings.add = Some("A".to_string());
    settings.primary_output_id = Some("A".to_string());
    settings.name = "Solo".to_string();
    settings.selected = Some(0);
    let last = (Some(0), None);
    assert!(save_request_check(&settings, &outputs, &last));
}

#[test]
fn save_request_check_refuses_an_unknown_primary() {
    let outputs = vec![output("A", "Living Room", 30)];
    let mut settings = GroupingSettings::default();
    settings.add = Some("Z".to_string());
    settings.primary_output_id = Some("Z".to_string());
    settings.name = "Ghost".to_string();
    settings.selected = Some(0);
    let last = (Some(0), None);
    assert!(!save_request_check(&settings, &outputs, &last));
}

#[test]
fn save_request_check_refuses_duplicate_volume_keys() {
    let outputs: Vec<Output> = Vec::new();
    let mut settings = GroupingSettings::default();
    settings.presets.push(preset(
        "Dup",
        &["A"],
        VolumeType::Preset,
        &[("A", 1), ("A", 2)],
    ));
    let last = (None, None);
    assert!(!save_request_check(&settings, &outputs, &last));
}

#[test]
fn persisted_settings_drop_the_extracted_preset() {
    let mut settings = GroupingSettings::default();
    settings.name = "kept".to_string();
    settings.extracted_preset = Some(preset("Ad hoc", &["A", "B"], VolumeType::Untouched, &[]));
    let persisted = to_persisted(&settings);
    assert_eq!(persisted.name, "kept");
    assert!(persisted.extracted_preset.is_none());
    assert!(settings.extracted_preset.is_some());
}
