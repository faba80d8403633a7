use zone_presets::model::{Action, GroupingSettings, Preset, VolumeType};
use zone_presets::codec::{
    decode_settings, encode_settings, ConfigDoc, DocField, DocObject, DocValue,
};
use zone_presets::text::{i32_to_string, parse_i32};

fn sample_settings() -> GroupingSettings {
    let mut settings = GroupingSettings::default();
    settings.selected = Some(1);
    settings.action = Action::Activate;
    settings.add = Some("B".to_string());
    settings.primary_output_id = Some("A".to_string());
    settings.volume_output_id = None;
    settings.volume_level = "42".to_string();
    settings.name = "Kitchen".to_string();
    settings.output_ids = vec!["A".to_string(), "B".to_string()];
    settings.volume_type = VolumeType::Preset;
    settings.presets.push(Preset {
        name: "Kitchen".to_string(),
        output_ids: vec!["A".to_string(), "B".to_string()],
        volume_type: VolumeType::Preset,
        volumes: vec![("A".to_string(), 40), ("B".to_string(), -3)],
    });
    settings.extracted_preset = Some(Preset {
        name: "Ad hoc".to_string(),
        output_ids: vec!["C".to_string(), "D".to_string()],
        volume_type: VolumeType::Untouched,
        volumes: Vec::new(),
    });
    settings
}

fn assert_settings_equal_except_extracted(a: &GroupingSettings, b: &GroupingSettings) {
    assert_eq!(a.selected, b.selected);
    assert_eq!(a.action, b.action);
    assert_eq!(a.add, b.add);
    assert_eq!(a.primary_output_id, b.primary_output_id);
    assert_eq!(a.volume_output_id, b.volume_output_id);
    assert_eq!(a.volume_level, b.volume_level);
    assert_eq!(a.name, b.name);
    assert_eq!(a.output_ids, b.output_ids);
    assert_eq!(a.volume_type, b.volume_type);
    assert_eq!(a.presets.len(), b.presets.len());
    for (pa, pb) in a.presets.iter().zip(b.presets.iter()) {
        assert_eq!(pa.name, pb.name);
        assert_eq!(pa.output_ids, pb.output_ids);
        assert_eq!(pa.volumes, pb.volumes);
    }
}

#[test]
fn round_trip_nulls_the_extracted_preset() {
    let settings = sample_settings();
    let doc = encode_settings(&settings);
    let back = decode_settings(&doc).expect("the encoded document must decode");
    assert_settings_equal_except_extracted(&settings, &back);
    assert!(back.extracted_preset.is_none());
}

#[test]
fn round_trip_of_the_default_settings() {
    let settings = GroupingSettings::default();
    let doc = encode_settings(&settings);
    let back = decode_settings(&doc).expect("the encoded document must decode");
    assert_eq!(back.selected, None);
    assert!(matches!(back.action, Action::Edit));
    assert!(back.presets.is_empty());
    assert!(back.extracted_preset.is_none());
}

#[test]
fn decode_accepts_any_field_order_and_ignores_extras() {
    let settings = sample_settings();
    let mut doc = encode_settings(&settings);
    doc.fields.reverse();
    doc.fields.push(("unknown_extra".to_string(), DocField::Value(DocValue::Int(7))));
    let back = decode_settings(&doc).expect("a reordered document must decode");
    assert_settings_equal_except_extracted(&settings, &back);
}

#[test]
fn decode_reads_a_missing_optional_field_as_absent() {
    let settings = sample_settings();
    let mut doc = encode_settings(&settings);
    doc.fields.retain(|(k, _)| k != "selected");
    let back = decode_settings(&doc).expect("a document without a selection must decode");
    assert_eq!(back.selected, None);
}

#[test]
fn decode_fails_on_a_missing_required_field() {
    let settings = sample_settings();
    let mut doc = encode_settings(&settings);
    doc.fields.retain(|(k, _)| k != "name");
    assert!(decode_settings(&doc).is_none());
}

#[test]
fn decode_fails_on_a_bad_action_code() {
    let settings = sample_settings();
    let mut doc = encode_settings(&settings);
    for field in doc.fields.iter_mut() {
        if field.0 == "action" {
            field.1 = DocField::Value(DocValue::Int(9));
        }
    }
    assert!(decode_settings(&doc).is_none());
}

#[test]
fn decode_fails_on_an_out_of_range_volume() {
    let doc = ConfigDoc {
        fields: vec![
            ("selected".to_string(), DocField::Value(DocValue::Null)),
            ("action".to_string(), DocField::Value(DocValue::Int(0))),
            ("add".to_string(), DocField::Value(DocValue::Null)),
            ("primary_output_id".to_string(), DocField::Value(DocValue::Null)),
            ("volume_output_id".to_string(), DocField::Value(DocValue::Null)),
            ("volume_level".to_string(), DocField::Value(DocValue::Str(String::new()))),
            ("name".to_string(), DocField::Value(DocValue::Str(String::new()))),
            ("output_ids".to_string(), DocField::Value(DocValue::StrArr(Vec::new()))),
            ("volume_type".to_string(), DocField::Value(DocValue::Int(0))),
            (
                "presets".to_string(),
                DocField::Objects(vec![DocObject {
                    fields: vec![
                        ("name".to_string(), DocValue::Str("P".to_string())),
                        (
                            "output_ids".to_string(),
                            DocValue::StrArr(vec!["A".to_string()]),
                        ),
                        ("volume_type".to_string(), DocValue::Int(2)),
                        (
                            "volumes".to_string(),
                            DocValue::IntObj(vec![("A".to_string(), 3_000_000_000)]),
                        ),
                    ],
                }]),
            ),
            ("extracted_preset".to_string(), DocField::Value(DocValue::Null)),
        ],
    };
    assert!(decode_settings(&doc).is_none());
}

#[test]
fn decode_reads_an_extracted_preset_object() {
    let settings = sample_settings();
    let mut doc = encode_settings(&settings);
    let inner = DocObject {
        fields: vec![
            ("name".to_string(), DocValue::Str("Ad hoc".to_string())),
            (
                "output_ids".to_string(),
                DocValue::StrArr(vec!["C".to_string(), "D".to_string()]),
            ),
            ("volume_type".to_string(), DocValue::Int(0)),
            ("volumes".to_string(), DocValue::IntObj(Vec::new())),
        ],
    };
    let pos = doc.fields.iter().position(|(k, _)| k == "extracted_preset").unwrap();
    doc.fields[pos].1 = DocField::Object(inner);
    let back = decode_settings(&doc).expect("a document with an extracted preset must decode");
    let extracted = back.extracted_preset.expect("the extracted preset must be read");
    assert_eq!(extracted.name, "Ad hoc");
    assert_eq!(extracted.output_ids, vec!["C".to_string(), "D".to_string()]);
}

#[test]
fn parse_accepts_signed_decimal_text() {
    assert_eq!(parse_i32("150"), Some(150));
    assert_eq!(parse_i32("+7"), Some(7));
    assert_eq!(parse_i32("-25"), Some(-25));
    assert_eq!(parse_i32("0"), Some(0));
    assert_eq!(parse_i32("2147483647"), Some(2147483647));
    assert_eq!(parse_i32("-2147483648"), Some(-2147483648));
}

#[test]
fn parse_rejects_everything_else() {
    assert_eq!(parse_i32(""), None);
    assert_eq!(parse_i32("-"), None);
    assert_eq!(parse_i32("+"), None);
    assert_eq!(parse_i32("12a"), None);
    assert_eq!(parse_i32(" 12"), None);
    assert_eq!(parse_i32("2147483648"), None);
    assert_eq!(parse_i32("-2147483649"), None);
    assert_eq!(parse_i32("12.5"), None);
}

#[test]
fn renders_decimal_text() {
    assert_eq!(i32_to_string(0), "0");
    assert_eq!(i32_to_string(7), "7");
    assert_eq!(i32_to_string(105), "105");
    assert_eq!(i32_to_string(-42), "-42");
    assert_eq!(i32_to_string(i32::MIN), "-2147483648");
    assert_eq!(i32_to_string(i32::MAX), "2147483647");
}
