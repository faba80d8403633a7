use zone_presets::model::{Output, Preset, Volume, VolumeType, Zone};
use zone_presets::matcher::{extract_preset, match_preset};

fn output(id: &str) -> Output {
    Output {
        output_id: id.to_string(),
        display_name: id.to_string(),
        can_group_with_output_ids: Vec::new(),
        volume: Volume { min: 0, max: 100, value: 50 },
    }
}

fn zone(id: &str, name: &str, outputs: &[&str]) -> Zone {
    Zone {
        zone_id: id.to_string(),
        display_name: name.to_string(),
        outputs: outputs.iter().map(|o| output(o)).collect(),
    }
}

fn preset(name: &str, ids: &[&str]) -> Preset {
    Preset {
        name: name.to_string(),
        output_ids: ids.iter().map(|s| s.to_string()).collect(),
        volume_type: VolumeType::Untouched,
        volumes: Vec::new(),
    }
}

#[test]
fn match_preset_finds_positional_match() {
    let presets = vec![preset("Pair", &["A", "B"])];
    let zones = vec![zone("z1", "Solo", &["C"]), zone("z2", "Pairzone", &["A", "B"])];
    assert_eq!(match_preset(&presets, &zones), Some((0, 1)));
}

#[test]
fn match_preset_requires_same_order() {
    let presets = vec![preset("Pair", &["A", "B"])];
    let zones = vec![zone("z1", "Swapped", &["B", "A"])];
    assert_eq!(match_preset(&presets, &zones), None);
}

#[test]
fn match_preset_requires_same_length() {
    let presets = vec![preset("Pair", &["A", "B"])];
    let zones = vec![zone("z1", "Bigger", &["A", "B", "C"])];
    assert_eq!(match_preset(&presets, &zones), None);
}

#[test]
fn match_preset_takes_first_pair_in_order() {
    let presets = vec![preset("One", &["A"]), preset("Two", &["B"])];
    let zones = vec![zone("z1", "B zone", &["B"]), zone("z2", "A zone", &["A"])];
    // the first preset in persisted order wins, even though the second
    // preset matches an earlier zone
    assert_eq!(match_preset(&presets, &zones), Some((0, 1)));
}

#[test]
fn extract_preset_takes_first_grouped_zone() {
    let zones = vec![
        zone("z1", "Solo", &["C"]),
        zone("z2", "Kitchen + Den", &["A", "B"]),
        zone("z3", "Other", &["D", "E"]),
    ];
    let p = extract_preset(&zones).unwrap();
    assert_eq!(p.name, "Kitchen + Den");
    assert_eq!(p.output_ids, vec!["A".to_string(), "B".to_string()]);
    assert!(matches!(p.volume_type, VolumeType::Untouched));
    assert!(p.volumes.is_empty());
}

#[test]
fn extract_preset_ignores_single_output_zones() {
    let zones = vec![zone("z1", "Solo", &["C"]), zone("z2", "Also solo", &["D"])];
    assert!(extract_preset(&zones).is_none());
}
